use vstd::prelude::*;

verus! {

/// The directory that is scanned where the command line names none.
pub const DEFAULT_ROOT_PATH: &'static str = ".";

/// The name of the index file where the command line names none.
pub const DEFAULT_INDEX_FILE_NAME: &'static str = "index.md";

/// The argument at position `at` of a command line, or `default` where the
/// command line is too short to hold one.
pub open spec fn argument_or(args: Seq<String>, at: int, default: Seq<char>) -> Seq<char> {
    if 0 <= at < args.len() {
        args[at]@
    } else {
        default
    }
}

/// The path of the index file: the root, a separator and the file's name,
/// put together as text. A root that ends in a separator and a name that is a
/// path of its own get no other treatment.
pub open spec fn index_file_path_of(root_path: Seq<char>, index_file_name: Seq<char>) -> Seq<char> {
    root_path.push('/') + index_file_name
}

/// The argument at position `at`, or a copy of `default`.
fn argument(args: &Vec<String>, at: usize, default: &str) -> (value: String)
    ensures
        value@ == argument_or(args@, at as int, default@),
{
    if at < args.len() {
        args[at].clone()
    } else {
        String::from_str(default)
    }
}

/// The directory to scan: the first argument behind the program's name, or
/// the current directory.
pub fn root_path_from(args: &Vec<String>) -> (root_path: String)
    ensures
        root_path@ == argument_or(args@, 1, DEFAULT_ROOT_PATH@),
{
    argument(args, 1, DEFAULT_ROOT_PATH)
}

/// The name of the index file: the second argument behind the program's
/// name, or `index.md`.
pub fn index_file_name_from(args: &Vec<String>) -> (index_file_name: String)
    ensures
        index_file_name@ == argument_or(args@, 2, DEFAULT_INDEX_FILE_NAME@),
{
    argument(args, 2, DEFAULT_INDEX_FILE_NAME)
}

/// The path of the index file in the directory that was scanned.
pub fn index_file_path(root_path: &str, index_file_name: &str) -> (path: String)
    ensures
        path@ == index_file_path_of(root_path@, index_file_name@),
{
    proof {
        reveal_strlit("/");
        assert("/"@ =~= seq!['/']);
    }
    String::from_str(root_path).concat("/").concat(index_file_name)
}

} // verus!
