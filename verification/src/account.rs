//! Account identifiers: which strings name an account, and the order in which
//! accounts are listed.

use vstd::prelude::*;
use vstd::utf8::{encode_utf8, encode_utf8_decode_utf8};

verus! {

/// One of the three characters that separate the parts of an account name.
pub open spec fn is_separator(c: char) -> bool {
    c == '-' || c == '_' || c == '.'
}

/// A lower-case ASCII letter or a digit.
pub open spec fn is_plain(c: char) -> bool {
    ('a' <= c && c <= 'z') || ('0' <= c && c <= '9')
}

/// The account names that the ledger accepts: 2 to 64 characters, each a
/// lower-case letter, a digit or a separator, with no separator at either end
/// and no two separators in a row.
pub open spec fn well_formed_account_id(id: Seq<char>) -> bool {
    &&& 2 <= id.len() <= 64
    &&& forall|i: int| 0 <= i < id.len() ==> is_plain(#[trigger] id[i]) || is_separator(id[i])
    &&& !is_separator(id[0])
    &&& !is_separator(id[id.len() - 1])
    &&& forall|i: int, j: int|
        0 <= i < id.len() && j == i + 1 && j < id.len() ==> !(is_separator(#[trigger] id[i])
            && is_separator(#[trigger] id[j]))
}

/// Calls `near_sdk::env::is_valid_account_id` on the bytes of `account_id`.
/// Trusted: the answer is `true` exactly for the names that
/// `well_formed_account_id` describes. The outside function walks the bytes
/// once, refuses a length outside 2..=64, any byte that is not a lower-case
/// letter, a digit, `-`, `_` or `.`, a separator that follows a separator or
/// stands first, and a separator at the end.
#[verifier::external_body]
pub(crate) fn is_valid_account_id(account_id: &String) -> (valid: bool)
    ensures
        valid == well_formed_account_id(account_id@),
{
    near_sdk::env::is_valid_account_id(account_id.as_bytes())
}

/// `a` and `b` agree on their first `k` bytes, and there `a` ends or holds
/// the smaller byte.
pub open spec fn bytes_part_at(a: Seq<u8>, b: Seq<u8>, k: int) -> bool {
    &&& 0 <= k <= a.len()
    &&& k < b.len()
    &&& forall|i: int| 0 <= i < k ==> a[i] == b[i]
    &&& (k == a.len() || a[k] < b[k])
}

/// Lexicographic order on byte strings: `a` is a proper prefix of `b`, or
/// holds the smaller byte where the two first differ.
pub open spec fn bytes_lt(a: Seq<u8>, b: Seq<u8>) -> bool {
    exists|k: int| bytes_part_at(a, b, k)
}

/// The order in which accounts are listed: that of their UTF-8 bytes.
pub open spec fn account_lt(a: Seq<char>, b: Seq<char>) -> bool {
    bytes_lt(encode_utf8(a), encode_utf8(b))
}

/// No byte string comes before itself.
pub proof fn lemma_bytes_lt_irreflexive(a: Seq<u8>)
    ensures
        !bytes_lt(a, a),
{
}

/// What comes before a byte string comes before all that it comes before.
pub proof fn lemma_bytes_lt_transitive(a: Seq<u8>, b: Seq<u8>, c: Seq<u8>)
    requires
        bytes_lt(a, b),
        bytes_lt(b, c),
    ensures
        bytes_lt(a, c),
{
    let k1 = choose|k: int| bytes_part_at(a, b, k);
    let k2 = choose|k: int| bytes_part_at(b, c, k);
    let k = if k1 <= k2 {
        k1
    } else {
        k2
    };
    assert(bytes_part_at(a, c, k));
}

/// No account comes before itself.
pub proof fn lemma_account_lt_irreflexive(a: Seq<char>)
    ensures
        !account_lt(a, a),
{
    lemma_bytes_lt_irreflexive(encode_utf8(a));
}

/// The order of accounts is transitive.
pub proof fn lemma_account_lt_transitive(a: Seq<char>, b: Seq<char>, c: Seq<char>)
    requires
        account_lt(a, b),
        account_lt(b, c),
    ensures
        account_lt(a, c),
{
    lemma_bytes_lt_transitive(encode_utf8(a), encode_utf8(b), encode_utf8(c));
}

/// Of two accounts at most one comes before the other, and then they differ.
pub proof fn lemma_account_lt_asymmetric(a: Seq<char>, b: Seq<char>)
    requires
        account_lt(a, b),
    ensures
        !account_lt(b, a),
        a != b,
{
    lemma_account_lt_irreflexive(a);
    if account_lt(b, a) {
        lemma_account_lt_transitive(a, b, a);
    }
}

/// Where one account stands relative to another in the listing order.
#[derive(Clone, Copy, PartialEq, Eq, Structural, Debug)]
pub enum Position {
    Before,
    Same,
    After,
}

/// Compares two accounts by their bytes.
pub fn compare_accounts(a: &String, b: &String) -> (r: Position)
    ensures
        (r == Position::Before) == account_lt(a@, b@),
        (r == Position::Same) == (a@ == b@),
        (r == Position::After) == account_lt(b@, a@),
{
    let x = a.as_str().as_bytes();
    let y = b.as_str().as_bytes();
    let n: usize = if x.len() <= y.len() {
        x.len()
    } else {
        y.len()
    };
    let mut i: usize = 0;
    while i < n
        invariant
            i <= n,
            n <= x@.len(),
            n <= y@.len(),
            x@ == encode_utf8(a@),
            y@ == encode_utf8(b@),
            forall|j: int| 0 <= j < i ==> x@[j] == y@[j],
        decreases n - i,
    {
        if x[i] < y[i] {
            proof {
                assert(bytes_part_at(x@, y@, i as int));
                lemma_account_lt_asymmetric(a@, b@);
            }
            return Position::Before;
        }
        if y[i] < x[i] {
            proof {
                assert(bytes_part_at(y@, x@, i as int));
                lemma_account_lt_asymmetric(b@, a@);
            }
            return Position::After;
        }
        i += 1;
    }
    if x.len() < y.len() {
        proof {
            assert(bytes_part_at(x@, y@, x@.len() as int));
            lemma_account_lt_asymmetric(a@, b@);
        }
        Position::Before
    } else if y.len() < x.len() {
        proof {
            assert(bytes_part_at(y@, x@, y@.len() as int));
            lemma_account_lt_asymmetric(b@, a@);
        }
        Position::After
    } else {
        proof {
            assert(x@ =~= y@);
            encode_utf8_decode_utf8(a@);
            encode_utf8_decode_utf8(b@);
            lemma_account_lt_irreflexive(a@);
        }
        Position::Same
    }
}

} // verus!
