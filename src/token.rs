use rand::seq::SliceRandom;
use vstd::prelude::*;

verus! {

/// Length of the public token of an album or an image.
pub const PUBLIC_TOKEN_LEN: usize = 8;

/// Length of the secret deletion token of an album or an image.
pub const DELETION_TOKEN_LEN: usize = 16;

/// The 62 symbols a token is drawn from: ASCII upper case, lower case and digits.
pub open spec fn is_token_char(c: char) -> bool {
    ||| 65 <= c as int <= 90
    ||| 97 <= c as int <= 122
    ||| 48 <= c as int <= 57
}

pub open spec fn is_token_of_len(s: Seq<char>, n: nat) -> bool {
    &&& s.len() == n
    &&& forall|i: int| 0 <= i < s.len() ==> is_token_char(#[trigger] s[i])
}

pub open spec fn is_public_token(s: Seq<char>) -> bool {
    is_token_of_len(s, PUBLIC_TOKEN_LEN as nat)
}

pub open spec fn is_deletion_token(s: Seq<char>) -> bool {
    is_token_of_len(s, DELETION_TOKEN_LEN as nat)
}

spec fn codes_increase(s: Seq<char>) -> bool {
    forall|i: int, j: int| 0 <= i < j < s.len() ==> (s[i] as int) < (s[j] as int)
}

/// Pushes the `count` consecutive characters starting at `first`.
fn push_range(v: &mut Vec<char>, first: u8, count: u8)
    requires
        first as int + count as int <= 128,
        codes_increase(old(v)@),
        forall|i: int| 0 <= i < old(v)@.len() ==> (#[trigger] old(v)@[i] as int) < first,
    ensures
        final(v)@.len() == old(v)@.len() + count,
        final(v)@.subrange(0, old(v)@.len() as int) == old(v)@,
        forall|i: int|
            old(v)@.len() <= i < final(v)@.len() ==> (#[trigger] final(v)@[i] as int) == first + (i
                - old(v)@.len()),
        codes_increase(final(v)@),
{
    let ghost start = v@;
    let mut k: u8 = 0;
    while k < count
        invariant
            k <= count,
            first as int + count as int <= 128,
            v@.len() == start.len() + k,
            v@.subrange(0, start.len() as int) == start,
            forall|i: int|
                start.len() <= i < v@.len() ==> (#[trigger] v@[i] as int) == first + (i
                    - start.len()),
            forall|i: int| 0 <= i < start.len() ==> (#[trigger] start[i] as int) < first,
            codes_increase(v@),
        decreases count - k,
    {
        let b: u8 = first + k;
        let c = b as char;
        proof {
            assert forall|i: int| 0 <= i < v@.len() implies (#[trigger] v@[i] as int) < c as int by {
                if i < start.len() {
                    assert(v@[i] == start[i]);
                }
            }
        }
        v.push(c);
        k = k + 1;
    }
}

/// The token alphabet, each symbol once.
fn token_alphabet() -> (r: Vec<char>)
    ensures
        r@.len() == 62,
        r@.no_duplicates(),
        forall|c: char| r@.contains(c) <==> is_token_char(c),
{
    let mut v: Vec<char> = Vec::new();
    push_range(&mut v, 48, 10);
    let ghost digits = v@;
    push_range(&mut v, 65, 26);
    let ghost upper = v@;
    assert forall|i: int| 0 <= i < upper.len() implies (#[trigger] upper[i] as int) < 97 by {
        if i < 10 {
            assert(upper.subrange(0, 10)[i] == digits[i]);
        }
    }
    push_range(&mut v, 97, 26);
    assert forall|i: int| 0 <= i < 62 implies #[trigger] v@[i] as int == if i < 10 {
        48 + i
    } else if i < 36 {
        65 + i - 10
    } else {
        97 + i - 36
    } by {
        if i < 36 {
            assert(v@.subrange(0, 36)[i] == upper[i]);
            if i < 10 {
                assert(upper.subrange(0, 10)[i] == digits[i]);
            }
        }
    }
    assert forall|c: char| v@.contains(c) <==> is_token_char(c) by {
        if is_token_char(c) {
            let k = c as int;
            let i: int = if k <= 57 {
                k - 48
            } else if k <= 90 {
                k - 65 + 10
            } else {
                k - 97 + 36
            };
            assert(v@[i] as int == k);
            assert(v@[i] == c);
        }
        if v@.contains(c) {
            let i = choose|i: int| 0 <= i < v@.len() && v@[i] == c;
            assert(v@[i] as int == c as int);
        }
    }
    v
}

/// Relies on rand's `SliceRandom::choose_multiple`, drawn with `thread_rng`: it yields
/// `amount` elements of the slice taken at distinct positions, when `amount` does not exceed
/// the slice's length.
#[verifier::external_body]
fn choose_distinct(alphabet: &Vec<char>, amount: usize) -> (r: String)
    requires
        amount <= alphabet@.len(),
    ensures
        r@.len() == amount,
        forall|i: int| 0 <= i < r@.len() ==> alphabet@.contains(#[trigger] r@[i]),
        alphabet@.no_duplicates() ==> r@.no_duplicates(),
{
    let mut rng = rand::thread_rng();
    alphabet.choose_multiple(&mut rng, amount).collect()
}

/// Draws a public token (8 symbols) and a deletion token (16 symbols) from the
/// alphanumeric alphabet, without repeating a symbol inside one token.
pub fn generate_token_pair() -> (r: (String, String))
    ensures
        is_public_token(r.0@),
        is_deletion_token(r.1@),
        r.0@.no_duplicates(),
        r.1@.no_duplicates(),
{
    let alphabet = token_alphabet();
    let public = choose_distinct(&alphabet, PUBLIC_TOKEN_LEN);
    let deletion = choose_distinct(&alphabet, DELETION_TOKEN_LEN);
    (public, deletion)
}

} // verus!
