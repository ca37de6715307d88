//! Rust identifier naming: snake case conversion and de-duplication of
//! generated method names.
use vstd::prelude::*;
use vstd::string::*;
use crate::text::{is_upper, is_lower, is_digit, lower, is_ascii_upper, is_ascii_lower, is_ascii_digit, to_lower, push_char};

verus! {

/// Appends `c` to `out`, preceded by a word separator when one is pending.
pub open spec fn emit_char(out: Seq<char>, pending: bool, c: char) -> Seq<char> {
    if pending {
        out.push('_').push(c)
    } else {
        out.push(c)
    }
}

/// Whether the upper-case letter at `i` starts a new word: it follows a
/// lower-case letter or digit, or it is the last capital of an acronym that a
/// lower-case letter follows.
pub open spec fn starts_word(s: Seq<char>, i: int) -> bool {
    i > 0 && (is_lower(s[i - 1]) || is_digit(s[i - 1]) || (is_upper(s[i - 1]) && i + 1
        < s.len() && is_lower(s[i + 1])))
}

/// One step of the snake-case scan over the character at `i`. The state is the
/// output so far and whether a separator is pending before the next character.
/// ASCII letters and digits are words; every other character separates words.
pub open spec fn snake_step(s: Seq<char>, i: int, st: (Seq<char>, bool)) -> (Seq<char>, bool) {
    let c = s[i];
    if is_upper(c) {
        let pending = st.1 || (starts_word(s, i) && st.0.len() > 0);
        (emit_char(st.0, pending, lower(c)), false)
    } else if is_lower(c) || is_digit(c) {
        (emit_char(st.0, st.1, c), false)
    } else {
        (st.0, st.0.len() > 0)
    }
}

pub open spec fn snake_scan(s: Seq<char>, n: int) -> (Seq<char>, bool)
    decreases n,
{
    if n <= 0 {
        (Seq::empty(), false)
    } else {
        snake_step(s, n - 1, snake_scan(s, n - 1))
    }
}

/// The snake-case form of `s`: words in lower case joined by `_`, with no
/// leading, trailing or doubled separator.
pub open spec fn snake_case(s: Seq<char>) -> Seq<char> {
    snake_scan(s, s.len() as int).0
}

/// Converts an identifier such as `displayName` or `HTTPServer` to snake case
/// (`display_name`, `http_server`).
pub fn to_snake_case(s: &str) -> (res: String)
    ensures
        res@ == snake_case(s@),
{
    let n = s.unicode_len();
    let mut out = String::new();
    let mut nonempty = false;
    let mut pending = false;
    let mut i: usize = 0;
    while i < n
        invariant
            i <= n,
            n == s@.len(),
            (out@, pending) == snake_scan(s@, i as int),
            nonempty == (out@.len() > 0),
        decreases n - i,
    {
        let c = s.get_char(i);
        if is_ascii_upper(c) {
            let mut boundary = false;
            if i > 0 {
                let prev = s.get_char(i - 1);
                if is_ascii_lower(prev) || is_ascii_digit(prev) {
                    boundary = true;
                } else if is_ascii_upper(prev) && i + 1 < n {
                    let next = s.get_char(i + 1);
                    boundary = is_ascii_lower(next);
                }
            }
            assert(boundary == starts_word(s@, i as int));
            if pending || (boundary && nonempty) {
                push_char(&mut out, '_');
            }
            push_char(&mut out, to_lower(c));
            pending = false;
            nonempty = true;
        } else if is_ascii_lower(c) || is_ascii_digit(c) {
            if pending {
                push_char(&mut out, '_');
            }
            push_char(&mut out, c);
            pending = false;
            nonempty = true;
        } else {
            pending = nonempty;
        }
        i = i + 1;
    }
    out
}


/// The decimal digit character for `d < 10`.
pub open spec fn digit_char(d: nat) -> char {
    (48 + d) as char
}

/// The decimal representation of `n`, without leading zeros.
pub open spec fn decimal(n: nat) -> Seq<char>
    decreases n,
{
    if n < 10 {
        seq![digit_char(n)]
    } else {
        decimal(n / 10).push(digit_char(n % 10))
    }
}

/// Renders `n` in decimal.
pub fn decimal_text(n: u128) -> (res: String)
    ensures
        res@ == decimal(n as nat),
    decreases n,
{
    let d = ((48 + n % 10) as u8) as char;
    if n < 10 {
        let mut s = String::new();
        push_char(&mut s, d);
        s
    } else {
        let mut s = decimal_text(n / 10);
        push_char(&mut s, d);
        s
    }
}

/// The `k`-th candidate for a method named `base`: `base` itself first, then
/// `base_2`, `base_3`, and so on.
pub open spec fn candidate(base: Seq<char>, k: nat) -> Seq<char> {
    if k <= 1 {
        base
    } else {
        base.push('_') + decimal(k)
    }
}

/// The names held by a list of strings.
pub open spec fn names_view(v: Seq<String>) -> Seq<Seq<char>> {
    v.map_values(|s: String| s@)
}

/// The index of the first candidate from `k` on that `used` does not hold
/// (searched up to one past the number of used names).
pub open spec fn first_free(base: Seq<char>, used: Seq<Seq<char>>, k: nat) -> nat
    decreases used.len() + 2 - k,
{
    if k > used.len() + 1 {
        k
    } else if !used.contains(candidate(base, k)) {
        k
    } else {
        first_free(base, used, k + 1)
    }
}

/// The name that de-duplication gives `base` when `used` is taken: the first
/// candidate that is not in `used`.
pub open spec fn fresh_name(base: Seq<char>, used: Seq<Seq<char>>) -> Seq<char> {
    candidate(base, first_free(base, used, 1))
}

/// Renders the `k`-th candidate name for `base`.
fn candidate_text(base: &String, k: u128) -> (res: String)
    ensures
        res@ == candidate(base@, k as nat),
{
    let mut s = base.clone();
    if k <= 1 {
        s
    } else {
        push_char(&mut s, '_');
        let d = decimal_text(k);
        s.append(d.as_str());
        s
    }
}

/// Whether `used` holds `name`.
pub fn contains_name(used: &Vec<String>, name: &String) -> (res: bool)
    ensures
        res == names_view(used@).contains(name@),
{
    let mut i: usize = 0;
    while i < used.len()
        invariant
            i <= used@.len(),
            forall|j: int| 0 <= j < i ==> used@[j]@ != name@,
        decreases used@.len() - i,
    {
        if used[i] == *name {
            assert(names_view(used@)[i as int] == name@);
            return true;
        }
        i = i + 1;
    }
    proof {
        if names_view(used@).contains(name@) {
            let j = choose|j: int| 0 <= j < names_view(used@).len() && names_view(used@)[j] == name@;
            assert(used@[j]@ == name@);
        }
    }
    false
}

/// Picks a method name from `base` that no earlier method took, and records it
/// as taken.
pub fn dedupe_name(base: &String, used: &mut Vec<String>) -> (res: String)
    ensures
        res@ == fresh_name(base@, names_view(old(used)@)),
        !names_view(old(used)@).contains(res@),
        final(used)@ == old(used)@.push(res),
{
    let ghost names = names_view(used@);
    proof {
        lemma_fresh_name_is_fresh(base@, names);
    }
    let len = used.len() as u128;
    let mut k: u128 = 1;
    while k <= len + 1
        invariant
            1 <= k <= len + 2,
            len == used@.len(),
            len <= usize::MAX,
            used@ == old(used)@,
            names == names_view(used@),
            first_free(base@, names, 1) == first_free(base@, names, k as nat),
        decreases len + 2 - k,
    {
        let cand = candidate_text(base, k);
        if !contains_name(used, &cand) {
            used.push(cand.clone());
            return cand;
        }
        k = k + 1;
    }
    let cand = candidate_text(base, k);
    used.push(cand.clone());
    cand
}


proof fn lemma_decimal_len(n: nat)
    ensures
        decimal(n).len() >= 1,
        decimal(n).len() == 1 <==> n < 10,
    decreases n,
{
    if n >= 10 {
        lemma_decimal_len(n / 10);
    }
}

proof fn lemma_digit_char_injective(a: nat, b: nat)
    requires
        a < 10,
        b < 10,
        digit_char(a) == digit_char(b),
    ensures
        a == b,
{
    assert(digit_char(a) as u32 == 48 + a);
    assert(digit_char(b) as u32 == 48 + b);
}

proof fn lemma_decimal_injective(a: nat, b: nat)
    requires
        decimal(a) == decimal(b),
    ensures
        a == b,
    decreases a,
{
    lemma_decimal_len(a);
    lemma_decimal_len(b);
    if a < 10 {
        assert(b < 10);
        assert(decimal(a)[0] == digit_char(a));
        assert(decimal(b)[0] == digit_char(b));
        lemma_digit_char_injective(a, b);
    } else {
        assert(b >= 10);
        let da = decimal(a / 10);
        let db = decimal(b / 10);
        assert(decimal(a) == da.push(digit_char(a % 10)));
        assert(decimal(b) == db.push(digit_char(b % 10)));
        assert(decimal(a).last() == digit_char(a % 10));
        assert(decimal(b).last() == digit_char(b % 10));
        lemma_digit_char_injective(a % 10, b % 10);
        assert(decimal(a).drop_last() =~= da);
        assert(decimal(b).drop_last() =~= db);
        lemma_decimal_injective(a / 10, b / 10);
    }
}

proof fn lemma_candidates_distinct(base: Seq<char>, j: nat, k: nat)
    requires
        1 <= j < k,
    ensures
        candidate(base, j) != candidate(base, k),
{
    lemma_decimal_len(k);
    if j == 1 {
        assert(candidate(base, k).len() > base.len());
    } else if candidate(base, j) == candidate(base, k) {
        let n = base.len() + 1;
        assert(candidate(base, j).skip(n as int) =~= decimal(j));
        assert(candidate(base, k).skip(n as int) =~= decimal(k));
        lemma_decimal_injective(j, k);
    }
}

proof fn lemma_first_free_props(base: Seq<char>, used: Seq<Seq<char>>, k: nat)
    requires
        k >= 1,
    ensures
        first_free(base, used, k) >= k,
        first_free(base, used, k) <= used.len() + 2 || first_free(base, used, k) == k,
        forall|j: nat|
            k <= j < first_free(base, used, k) ==> used.contains(#[trigger] candidate(base, j)),
        first_free(base, used, k) <= used.len() + 1 ==> !used.contains(
            candidate(base, first_free(base, used, k)),
        ),
    decreases used.len() + 2 - k,
{
    if k > used.len() + 1 {
    } else if !used.contains(candidate(base, k)) {
    } else {
        lemma_first_free_props(base, used, k + 1);
    }
}

/// A name that de-duplication picks is never one that was taken before, and
/// every earlier candidate for the same base was taken.
pub proof fn lemma_fresh_name_is_fresh(base: Seq<char>, used: Seq<Seq<char>>)
    ensures
        !used.contains(fresh_name(base, used)),
        exists|k: nat|
            k >= 1 && fresh_name(base, used) == candidate(base, k) && (forall|j: nat|
                1 <= j < k ==> used.contains(#[trigger] candidate(base, j))),
{
    lemma_first_free_props(base, used, 1);
    let m = first_free(base, used, 1);
    if m > used.len() + 1 {
        // every candidate 1..=used.len()+1 is taken: more distinct names than
        // `used` can hold
        let n = used.len() + 1;
        let cs = Seq::new(n, |i: int| candidate(base, (i + 1) as nat));
        assert forall|a: int, b: int| 0 <= a < cs.len() && 0 <= b < cs.len() && a != b implies cs[a]
            != cs[b] by {
            if a < b {
                lemma_candidates_distinct(base, (a + 1) as nat, (b + 1) as nat);
            } else {
                lemma_candidates_distinct(base, (b + 1) as nat, (a + 1) as nat);
            }
        }
        assert(cs.no_duplicates());
        cs.unique_seq_to_set();
        used.lemma_cardinality_of_set();
        assert forall|x: Seq<char>| cs.to_set().contains(x) implies used.to_set().contains(x) by {
            let i = choose|i: int| 0 <= i < cs.len() && cs[i] == x;
            assert(used.contains(candidate(base, (i + 1) as nat)));
        }
        vstd::set_lib::lemma_len_subset(cs.to_set(), used.to_set());
        assert(false);
    }
    assert(fresh_name(base, used) == candidate(base, m));
}

} // verus!
