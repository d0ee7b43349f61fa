//! Metadata keys: ASCII case folding and the order in which keys are kept.

use vstd::prelude::*;
use vstd::string::*;

verus! {

/// Whether a character is an ASCII capital letter, 'A' to 'Z'.
pub open spec fn is_ascii_upper(c: char) -> bool {
    65 <= (c as u32) <= 90
}

/// The ASCII lower-case form of a character: 'A'..'Z' map to 'a'..'z', every
/// other character is unchanged.
pub open spec fn lower_char(c: char) -> char {
    if is_ascii_upper(c) {
        ((c as u32) + 32) as char
    } else {
        c
    }
}

/// The ASCII lower-case form of a string.
pub open spec fn ascii_lowercase(s: Seq<char>) -> Seq<char> {
    s.map_values(|c: char| lower_char(c))
}

/// Whether a string is already in ASCII lower case.
pub open spec fn is_ascii_lowercased(s: Seq<char>) -> bool {
    ascii_lowercase(s) == s
}

/// `a` and `b` agree on their first `n` characters.
pub open spec fn agree_before(a: Seq<char>, b: Seq<char>, n: int) -> bool {
    &&& 0 <= n <= a.len()
    &&& n <= b.len()
    &&& forall|k: int| 0 <= k < n ==> a[k] == b[k]
}

/// Having agreed before position `n`, `a` sorts before `b` at `n`: either `a`
/// ends there and `b` goes on, or `a`'s character there has the lower code.
pub open spec fn sorts_before_at(a: Seq<char>, b: Seq<char>, n: int) -> bool {
    ||| (n == a.len() && n < b.len())
    ||| (n < a.len() && n < b.len() && (a[n] as u32) < (b[n] as u32))
}

/// Lexicographic order of strings by character code, the order in which a
/// `BTreeMap<String, _>` keeps its keys.
pub open spec fn key_precedes(a: Seq<char>, b: Seq<char>) -> bool {
    exists|n: int| #[trigger] agree_before(a, b, n) && sorts_before_at(a, b, n)
}

/// No key precedes itself.
pub proof fn lemma_precedes_irreflexive(a: Seq<char>)
    ensures
        !key_precedes(a, a),
{
}

/// Precedence is transitive.
pub proof fn lemma_precedes_transitive(a: Seq<char>, b: Seq<char>, c: Seq<char>)
    requires
        key_precedes(a, b),
        key_precedes(b, c),
    ensures
        key_precedes(a, c),
{
    let i = choose|n: int| #[trigger] agree_before(a, b, n) && sorts_before_at(a, b, n);
    let j = choose|n: int| #[trigger] agree_before(b, c, n) && sorts_before_at(b, c, n);
    if i < j {
        assert(agree_before(a, c, i));
        assert(sorts_before_at(a, c, i));
    } else if j < i {
        assert(agree_before(a, c, j));
        assert(sorts_before_at(a, c, j));
    } else {
        assert(agree_before(a, c, i));
        assert(sorts_before_at(a, c, i));
    }
}

/// Two keys that precede one another in turn are impossible.
pub proof fn lemma_precedes_asymmetric(a: Seq<char>, b: Seq<char>)
    requires
        key_precedes(a, b),
    ensures
        !key_precedes(b, a),
{
    if key_precedes(b, a) {
        lemma_precedes_transitive(a, b, a);
        lemma_precedes_irreflexive(a);
    }
}

/// A key that precedes another differs from it.
pub proof fn lemma_precedes_distinct(a: Seq<char>, b: Seq<char>)
    requires
        key_precedes(a, b),
    ensures
        a != b,
{
    if a == b {
        lemma_precedes_irreflexive(a);
    }
}

/// The outcome of comparing two keys.
#[derive(Clone, Copy, Debug, PartialEq, Eq, Structural)]
pub enum KeyOrder {
    Less,
    Equal,
    Greater,
}

/// Compares two keys character by character, as `str`'s ordering does.
pub fn compare_keys(a: &str, b: &str) -> (r: KeyOrder)
    ensures
        r == KeyOrder::Less <==> key_precedes(a@, b@),
        r == KeyOrder::Equal <==> a@ == b@,
        r == KeyOrder::Greater <==> key_precedes(b@, a@),
{
    let la = a.unicode_len();
    let lb = b.unicode_len();
    let mut i: usize = 0;
    loop
        invariant
            la == a@.len(),
            lb == b@.len(),
            agree_before(a@, b@, i as int),
            agree_before(b@, a@, i as int),
        decreases la - i,
    {
        if i == la {
            if i == lb {
                assert(a@ =~= b@);
                proof {
                    lemma_precedes_irreflexive(a@);
                }
                return KeyOrder::Equal;
            } else {
                assert(sorts_before_at(a@, b@, i as int));
                proof {
                    lemma_precedes_asymmetric(a@, b@);
                    lemma_precedes_distinct(a@, b@);
                }
                return KeyOrder::Less;
            }
        }
        if i == lb {
            assert(sorts_before_at(b@, a@, i as int));
            proof {
                lemma_precedes_asymmetric(b@, a@);
                lemma_precedes_distinct(b@, a@);
            }
            return KeyOrder::Greater;
        }
        let ca = a.get_char(i);
        let cb = b.get_char(i);
        if (ca as u32) < (cb as u32) {
            assert(sorts_before_at(a@, b@, i as int));
            proof {
                lemma_precedes_asymmetric(a@, b@);
                lemma_precedes_distinct(a@, b@);
            }
            return KeyOrder::Less;
        }
        if (cb as u32) < (ca as u32) {
            assert(sorts_before_at(b@, a@, i as int));
            proof {
                lemma_precedes_asymmetric(b@, a@);
                lemma_precedes_distinct(b@, a@);
            }
            return KeyOrder::Greater;
        }
        i = i + 1;
    }
}

/// Calls `str::to_ascii_lowercase`, which returns a copy of the string in which
/// each ASCII letter 'A'..'Z' is mapped to 'a'..'z' and every other character is
/// left unchanged.
#[verifier::external_body]
fn str_to_ascii_lowercase(s: &str) -> (r: String)
    ensures
        r@ == ascii_lowercase(s@),
{
    s.to_ascii_lowercase()
}

/// Calls `String::make_ascii_lowercase`, which maps each ASCII letter
/// 'A'..'Z' of the string to 'a'..'z' in place and leaves every other character
/// unchanged.
#[verifier::external_body]
fn string_make_ascii_lowercase(s: &mut String)
    ensures
        final(s)@ == ascii_lowercase(old(s)@),
{
    s.make_ascii_lowercase()
}

/// Lowercases an ASCII key for lookup; a key with no capital letter is copied
/// as it is.
pub fn normalize(key: &str) -> (r: String)
    ensures
        r@ == ascii_lowercase(key@),
{
    let n = key.unicode_len();
    let mut i: usize = 0;
    let mut any_upper = false;
    while i < n
        invariant
            n == key@.len(),
            i <= n,
            !any_upper ==> forall|j: int| 0 <= j < i ==> !is_ascii_upper(#[trigger] key@[j]),
        decreases n - i,
    {
        let c = key.get_char(i);
        let u = c as u32;
        if 65 <= u && u <= 90 {
            any_upper = true;
        }
        i = i + 1;
    }
    if any_upper {
        str_to_ascii_lowercase(key)
    } else {
        assert(ascii_lowercase(key@) =~= key@);
        key.to_owned()
    }
}

/// Lowercases an owned key in place.
pub fn normalize_owned(key: String) -> (r: String)
    ensures
        r@ == ascii_lowercase(key@),
{
    let mut key = key;
    string_make_ascii_lowercase(&mut key);
    key
}

/// Lowering a string twice is lowering it once.
pub proof fn lemma_lowercase_idempotent(s: Seq<char>)
    ensures
        is_ascii_lowercased(ascii_lowercase(s)),
{
    assert(ascii_lowercase(ascii_lowercase(s)) =~= ascii_lowercase(s));
}

} // verus!
