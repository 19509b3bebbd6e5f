use vstd::prelude::*;

verus! {

/// The name of the file for the environment `env`: `.env` for the empty
/// name, `.env.<env>` for any other.
pub open spec fn base_file_name(env: Seq<char>) -> Seq<char> {
    if env.len() == 0 {
        ".env"@
    } else {
        ".env."@ + env
    }
}

/// The name of the local override of the file `base`: `<base>.local`.
pub open spec fn local_file_name_of(base: Seq<char>) -> Seq<char> {
    base + ".local"@
}

/// The name of the file for the environment `env`.
pub fn env_file_name(env: &str) -> (r: String)
    ensures
        r@ == base_file_name(env@),
{
    if env.unicode_len() == 0 {
        String::from_str(".env")
    } else {
        String::from_str(".env.").concat(env)
    }
}

/// The name of the local override of the file `base`.
pub fn local_file_name(base: &str) -> (r: String)
    ensures
        r@ == local_file_name_of(base@),
{
    String::from_str(base).concat(".local")
}

/// The file that the store for the environment `env` is loaded from, in the
/// working directory: the local override where it exists, the base file
/// otherwise.
pub fn file_to_load(env: &str, local_exists: bool) -> (r: String)
    ensures
        r@ == (if local_exists {
            local_file_name_of(base_file_name(env@))
        } else {
            base_file_name(env@)
        }),
{
    let base = env_file_name(env);
    if local_exists {
        local_file_name(base.as_str())
    } else {
        base
    }
}

} // verus!
