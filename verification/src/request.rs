//! The operation a request names, checked before any file is touched.

use vstd::prelude::*;

use crate::edit::Operation;

verus! {

/// Why a request names no operation.
#[derive(Debug, Clone, Copy, PartialEq, Eq)]
pub enum RequestError {
    /// A replace or repeat with nothing to find.
    EmptyFind,
    /// An insert with no anchor text.
    EmptyAfter,
    /// A mode other than "replace", "insert" or "repeat".
    UnknownMode,
}

/// Whether two strings hold the same characters.
fn same_text(a: &str, b: &str) -> (same: bool)
    ensures
        same == (a@ == b@),
{
    let n = a.unicode_len();
    if n != b.unicode_len() {
        return false;
    }
    let mut i: usize = 0;
    while i < n
        invariant
            i <= n,
            n == a@.len(),
            n == b@.len(),
            forall|k: int| 0 <= k < i ==> a@[k] == b@[k],
        decreases n - i,
    {
        if a.get_char(i) != b.get_char(i) {
            return false;
        }
        i += 1;
    }
    assert(a@ =~= b@);
    true
}

/// The operation of a request: mode "replace" with a non-empty `find`, mode
/// "insert" with a non-empty `after`, or mode "repeat" with a non-empty `find`
/// and its repeat count; any other request is refused.
pub fn operation_from(
    mode: &str,
    find: &str,
    replace_with: &str,
    after: &str,
    insert_text: &str,
    repeat_count: usize,
) -> (res: Result<Operation, RequestError>)
    ensures
        mode@ == "replace"@ && find@.len() > 0 ==> (res matches Ok(
            Operation::Replace { find: f, replace: r },
        ) && f@ == find@ && r@ == replace_with@),
        mode@ == "replace"@ && find@.len() == 0 ==> res == Err::<Operation, RequestError>(RequestError::EmptyFind),
        mode@ == "insert"@ && after@.len() > 0 ==> (res matches Ok(
            Operation::Insert { after: a, insert: i },
        ) && a@ == after@ && i@ == insert_text@),
        mode@ == "insert"@ && after@.len() == 0 ==> res == Err::<Operation, RequestError>(RequestError::EmptyAfter),
        mode@ == "repeat"@ && find@.len() > 0 ==> (res matches Ok(
            Operation::Repeat { find: f, count: c },
        ) && f@ == find@ && c == repeat_count),
        mode@ == "repeat"@ && find@.len() == 0 ==> res == Err::<Operation, RequestError>(RequestError::EmptyFind),
        mode@ != "replace"@ && mode@ != "insert"@ && mode@ != "repeat"@ ==> res == Err::<
            Operation,
            RequestError,
        >(RequestError::UnknownMode),
{
    proof {
        reveal_strlit("replace");
        reveal_strlit("insert");
        reveal_strlit("repeat");
        assert("replace"@[0] != "insert"@[0]);
        assert("repeat"@[0] != "insert"@[0]);
        assert("replace"@[3] != "repeat"@[3]);
    }
    if same_text(mode, "replace") {
        if find.is_empty() {
            Err(RequestError::EmptyFind)
        } else {
            Ok(Operation::Replace { find: find.to_owned(), replace: replace_with.to_owned() })
        }
    } else if same_text(mode, "insert") {
        if after.is_empty() {
            Err(RequestError::EmptyAfter)
        } else {
            Ok(Operation::Insert { after: after.to_owned(), insert: insert_text.to_owned() })
        }
    } else if same_text(mode, "repeat") {
        if find.is_empty() {
            Err(RequestError::EmptyFind)
        } else {
            Ok(Operation::Repeat { find: find.to_owned(), count: repeat_count })
        }
    } else {
        Err(RequestError::UnknownMode)
    }
}

} // verus!
