//! Handles: the opaque textual identifiers under which entries are registered.
use vstd::prelude::*;
use vstd::string::StringExecFns;

verus! {

/// Whether `c` is a lower-case hexadecimal digit.
pub open spec fn is_lower_hex(c: char) -> bool {
    ('0' <= c && c <= '9') || ('a' <= c && c <= 'f')
}

/// The canonical textual form of a UUID: 36 characters, hyphens at 8, 13, 18
/// and 23, lower-case hexadecimal digits everywhere else.
pub open spec fn is_handle_text(s: Seq<char>) -> bool {
    &&& s.len() == 36
    &&& forall|i: int|
        0 <= i < 36 ==> if i == 8 || i == 13 || i == 18 || i == 23 {
            s[i] == '-'
        } else {
            is_lower_hex(#[trigger] s[i])
        }
}

/// A fresh random handle.
/// Relies on `uuid::Uuid::new_v4`, a random version-4 UUID (version digit `4`,
/// variant digit one of `8`, `9`, `a`, `b`), and on its `Display`, which
/// writes the lower-case hyphenated form. Which UUID comes out is left open.
#[verifier::external_body]
pub(crate) fn new_handle() -> (r: String)
    ensures
        is_handle_text(r@),
        r@[14] == '4',
        r@[19] == '8' || r@[19] == '9' || r@[19] == 'a' || r@[19] == 'b',
{
    uuid::Uuid::new_v4().to_string()
}

/// The file name of the scratch database for handle `h`:
/// `z_ecto_libsql_test-`, `h`, and `.db`.
pub fn test_db_path(h: &str) -> (r: String)
    ensures
        r@ == "z_ecto_libsql_test-"@ + h@ + ".db"@,
{
    let mut name = String::from_str("z_ecto_libsql_test-");
    name.append(h);
    name.append(".db");
    name
}

/// The file name of a fresh scratch database: `test_db_path` of a handle
/// drawn in this call.
pub fn setup_test_db() -> (r: String)
    ensures
        exists|h: Seq<char>|
            is_handle_text(h) && r@ == "z_ecto_libsql_test-"@ + h + ".db"@,
{
    let h = new_handle();
    test_db_path(h.as_str())
}

} // verus!
