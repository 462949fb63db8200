//! Name conversions used when turning protocol identifiers into Rust
//! identifiers, and the small string utilities the generator relies on.

use vstd::prelude::*;
use vstd::string::*;

verus! {

/// ASCII upper-casing of a single character: `a`..`z` map to `A`..`Z`,
/// every other character is kept.
pub open spec fn spec_ascii_upper(c: char) -> char {
    if 'a' <= c && c <= 'z' {
        ((c as int) - 32) as char
    } else {
        c
    }
}

/// A character that separates words: `_` always, `.` only in dotted names.
pub open spec fn is_word_sep(c: char, dotted: bool) -> bool {
    c == '_' || (dotted && c == '.')
}

/// What character `i` of `s` contributes to the camel-case form of `s`:
/// separators vanish, the first character of each word is upper-cased,
/// all others are copied.
pub open spec fn camel_piece(s: Seq<char>, i: int, dotted: bool) -> Seq<char> {
    if is_word_sep(s[i], dotted) {
        Seq::empty()
    } else if i == 0 || is_word_sep(s[i - 1], dotted) {
        seq![spec_ascii_upper(s[i])]
    } else {
        seq![s[i]]
    }
}

/// The camel-case form of the first `n` characters of `s`.
pub open spec fn camel_prefix(s: Seq<char>, n: int, dotted: bool) -> Seq<char>
    decreases n,
{
    if n <= 0 {
        Seq::empty()
    } else {
        camel_prefix(s, n - 1, dotted) + camel_piece(s, n - 1, dotted)
    }
}

/// `wl_shm_pool` becomes `WlShmPool`.
pub open spec fn spec_snake_to_camel(s: Seq<char>) -> Seq<char> {
    camel_prefix(s, s.len() as int, false)
}

/// `wl_shm.format` becomes `WlShmFormat`: dots separate words like underscores.
pub open spec fn spec_dotted_snake_to_camel(s: Seq<char>) -> Seq<char> {
    camel_prefix(s, s.len() as int, true)
}

/// `wl_surface` becomes `WL_SURFACE`.
pub open spec fn spec_snake_to_screaming(s: Seq<char>) -> Seq<char> {
    s.map_values(|c: char| spec_ascii_upper(c))
}

/// The character of a decimal digit `d` (`0 <= d < 10`).
pub open spec fn spec_digit(d: int) -> char {
    (d + 48) as char
}

/// The decimal representation of `n`, without leading zeros.
pub open spec fn spec_decimal(n: nat) -> Seq<char>
    decreases n,
{
    if n < 10 {
        seq![spec_digit(n as int)]
    } else {
        spec_decimal(n / 10) + seq![spec_digit((n % 10) as int)]
    }
}

/// Index of the first `c` in `s` at or after `i`, or `s.len()` when there is none.
pub open spec fn spec_find_from(s: Seq<char>, c: char, i: int) -> int
    decreases s.len() - i,
{
    if i < 0 || i >= s.len() {
        s.len() as int
    } else if s[i] == c {
        i
    } else {
        spec_find_from(s, c, i + 1)
    }
}

/// Splits a reference to an enum of another interface, `iface.enum`, at its
/// first dot: the part before it and the part up to the next dot (or the end).
/// A name without a dot refers to an enum of the current interface: `None`.
pub open spec fn spec_enum_parts(e: Seq<char>) -> Option<(Seq<char>, Seq<char>)> {
    let k = spec_find_from(e, '.', 0);
    if k < e.len() {
        let rest = e.subrange(k + 1, e.len() as int);
        Some((e.subrange(0, k), rest.subrange(0, spec_find_from(rest, '.', 0))))
    } else {
        None
    }
}

/// Whether one of the strings in `v` reads `s`.
pub open spec fn seq_has_string(v: Seq<String>, s: Seq<char>) -> bool {
    exists|i: int| 0 <= i < v.len() && #[trigger] v[i]@ == s
}

/// Appends one character (`String::push`).
#[verifier::external_body]
fn push_char(s: &mut String, c: char)
    ensures
        final(s)@ == old(s)@.push(c),
{
    s.push(c);
}

/// ASCII upper-casing of a single character.
pub fn ascii_upper(c: char) -> (r: char)
    ensures
        r == spec_ascii_upper(c),
{
    if 'a' <= c && c <= 'z' {
        let b: u8 = c as u8;
        (b - 32) as char
    } else {
        c
    }
}

fn is_sep(c: char, dotted: bool) -> (r: bool)
    ensures
        r == is_word_sep(c, dotted),
{
    c == '_' || (dotted && c == '.')
}

fn camelize(input: &str, dotted: bool) -> (res: String)
    ensures
        res@ == camel_prefix(input@, input@.len() as int, dotted),
{
    let n = input.unicode_len();
    let mut res = String::new();
    let mut i: usize = 0;
    while i < n
        invariant
            n == input@.len(),
            i <= n,
            res@ == camel_prefix(input@, i as int, dotted),
        decreases n - i,
    {
        let c = input.get_char(i);
        if is_sep(c, dotted) {
        } else if i == 0 || is_sep(input.get_char(i - 1), dotted) {
            push_char(&mut res, ascii_upper(c));
        } else {
            push_char(&mut res, c);
        }
        assert(camel_prefix(input@, i + 1, dotted) == camel_prefix(input@, i as int, dotted)
            + camel_piece(input@, i as int, dotted));
        i += 1;
    }
    res
}

/// Camel-case form of a snake-case name: each `_` is dropped and the letter
/// that starts a word is upper-cased.
pub fn snake_to_camel(input: &str) -> (res: String)
    ensures
        res@ == spec_snake_to_camel(input@),
{
    camelize(input, false)
}

/// Camel-case form of a dotted snake-case name: `_` and `.` both separate words.
pub fn dotted_snake_to_camel(input: &str) -> (res: String)
    ensures
        res@ == spec_dotted_snake_to_camel(input@),
{
    camelize(input, true)
}

/// Upper-case form of a snake-case name, used for opcode constants.
pub fn snake_to_screaming(input: &str) -> (res: String)
    ensures
        res@ == spec_snake_to_screaming(input@),
{
    let n = input.unicode_len();
    let mut res = String::new();
    let mut i: usize = 0;
    while i < n
        invariant
            n == input@.len(),
            i <= n,
            res@ == input@.subrange(0, i as int).map_values(|c: char| spec_ascii_upper(c)),
        decreases n - i,
    {
        let c = input.get_char(i);
        push_char(&mut res, ascii_upper(c));
        assert(input@.subrange(0, i + 1).map_values(|c: char| spec_ascii_upper(c))
            =~= input@.subrange(0, i as int).map_values(|c: char| spec_ascii_upper(c)).push(
            spec_ascii_upper(c),
        ));
        i += 1;
    }
    assert(input@.subrange(0, n as int) =~= input@);
    res
}

/// Appends the decimal representation of `n`.
pub fn push_decimal(s: &mut String, n: u64)
    ensures
        final(s)@ == old(s)@ + spec_decimal(n as nat),
    decreases n,
{
    let ghost start = s@;
    if n >= 10 {
        push_decimal(s, n / 10);
    }
    let d: u8 = (n % 10) as u8;
    push_char(s, (d + 48) as char);
    assert(s@ =~= start + spec_decimal(n as nat));
}

/// The decimal representation of `n`.
pub fn decimal(n: u64) -> (res: String)
    ensures
        res@ == spec_decimal(n as nat),
{
    let mut s = String::new();
    push_decimal(&mut s, n);
    assert(s@ =~= spec_decimal(n as nat));
    s
}

/// Character-wise equality of two strings.
pub fn str_eq(a: &str, b: &str) -> (r: bool)
    ensures
        r == (a@ == b@),
{
    let n = a.unicode_len();
    let m = b.unicode_len();
    if n != m {
        return false;
    }
    let mut i: usize = 0;
    while i < n
        invariant
            n == a@.len(),
            m == b@.len(),
            n == m,
            i <= n,
            forall|j: int| 0 <= j < i ==> a@[j] == b@[j],
        decreases n - i,
    {
        if a.get_char(i) != b.get_char(i) {
            return false;
        }
        i += 1;
    }
    assert(a@ =~= b@);
    true
}

/// Index of the first `c` in `s`, or the length of `s` when there is none.
pub fn find_char(s: &str, c: char) -> (r: usize)
    ensures
        r == spec_find_from(s@, c, 0),
{
    let n = s.unicode_len();
    let mut i: usize = 0;
    while i < n
        invariant
            n == s@.len(),
            i <= n,
            spec_find_from(s@, c, 0) == spec_find_from(s@, c, i as int),
        decreases n - i,
    {
        if s.get_char(i) == c {
            return i;
        }
        i += 1;
    }
    n
}

/// The two parts of a dotted enum reference (see [`spec_enum_parts`]).
pub fn enum_parts(e: &str) -> (r: Option<(String, String)>)
    ensures
        match (r, spec_enum_parts(e@)) {
            (Some((a, b)), Some((sa, sb))) => a@ == sa && b@ == sb,
            (None, None) => true,
            _ => false,
        },
{
    let n = e.unicode_len();
    let k = find_char(e, '.');
    proof {
        lemma_find_from(e@, '.', 0);
    }
    if k < n {
        let first = e.substring_char(0, k);
        let rest = e.substring_char(k + 1, n);
        let m = find_char(rest, '.');
        proof {
            lemma_find_from(rest@, '.', 0);
        }
        let second = rest.substring_char(0, m);
        Some((String::from_str(first), String::from_str(second)))
    } else {
        None
    }
}

/// Whether `s` holds a `.`.
pub fn has_dot(s: &str) -> (r: bool)
    ensures
        r == s@.contains('.'),
{
    let k = find_char(s, '.');
    proof {
        lemma_find_from(s@, '.', 0);
    }
    k < s.unicode_len()
}

/// Whether one of the strings in `v` reads `s`.
pub fn contains_string(v: &Vec<String>, s: &str) -> (r: bool)
    ensures
        r == seq_has_string(v@, s@),
{
    let n = v.len();
    let mut i: usize = 0;
    while i < n
        invariant
            n == v@.len(),
            i <= n,
            forall|j: int| 0 <= j < i ==> v@[j]@ != s@,
        decreases n - i,
    {
        if str_eq(v[i].as_str(), s) {
            return true;
        }
        i += 1;
    }
    false
}

/// What `spec_find_from` returns: a position between `i` and the length,
/// holding `c` unless it is the length, with no `c` before it from `i` on.
pub proof fn lemma_find_from(s: Seq<char>, c: char, i: int)
    requires
        0 <= i <= s.len(),
    ensures
        i <= spec_find_from(s, c, i) <= s.len(),
        spec_find_from(s, c, i) < s.len() ==> s[spec_find_from(s, c, i)] == c,
        forall|j: int| i <= j < spec_find_from(s, c, i) ==> s[j] != c,
    decreases s.len() - i,
{
    if i < s.len() && s[i] != c {
        lemma_find_from(s, c, i + 1);
    }
}

// ---------------------------------------------------------------------------
// Laws of the name conversions
// ---------------------------------------------------------------------------

/// Upper-casing an upper-cased character changes nothing.
pub proof fn lemma_ascii_upper_idempotent(c: char)
    ensures
        spec_ascii_upper(spec_ascii_upper(c)) == spec_ascii_upper(c),
{
    if 'a' <= c && c <= 'z' {
        let u = ((c as int) - 32) as char;
        assert((u as int) == (c as int) - 32);
    }
}

/// No separator survives in a camel-case prefix.
proof fn lemma_camel_prefix_no_sep(s: Seq<char>, n: int, dotted: bool)
    requires
        0 <= n <= s.len(),
    ensures
        forall|k: int|
            0 <= k < camel_prefix(s, n, dotted).len() ==> !is_word_sep(
                #[trigger] camel_prefix(s, n, dotted)[k],
                dotted,
            ),
    decreases n,
{
    if n > 0 {
        lemma_camel_prefix_no_sep(s, n - 1, dotted);
        let a = camel_prefix(s, n - 1, dotted);
        let b = camel_piece(s, n - 1, dotted);
        let c = s[n - 1];
        if !is_word_sep(c, dotted) && 'a' <= c && c <= 'z' {
            let u = ((c as int) - 32) as char;
            assert((u as int) == (c as int) - 32);
        }
        assert(forall|k: int| 0 <= k < b.len() ==> !is_word_sep(#[trigger] b[k], dotted));
        assert(camel_prefix(s, n, dotted) == a + b);
        assert forall|k: int| 0 <= k < (a + b).len() implies !is_word_sep(
            #[trigger] (a + b)[k],
            dotted,
        ) by {
            if k < a.len() {
                assert((a + b)[k] == a[k]);
            } else {
                assert((a + b)[k] == b[k - a.len()]);
            }
        }
    }
}

/// A camel-case name holds no `_`.
pub proof fn lemma_camel_has_no_underscore(s: Seq<char>)
    ensures
        !spec_snake_to_camel(s).contains('_'),
{
    lemma_camel_prefix_no_sep(s, s.len() as int, false);
}

/// A dotted camel-case name holds neither `_` nor `.`.
pub proof fn lemma_dotted_camel_has_no_separator(s: Seq<char>)
    ensures
        !spec_dotted_snake_to_camel(s).contains('_'),
        !spec_dotted_snake_to_camel(s).contains('.'),
{
    lemma_camel_prefix_no_sep(s, s.len() as int, true);
}

/// A camel-case prefix is empty only where the characters are all separators,
/// and otherwise starts with an upper-cased character.
proof fn lemma_camel_prefix_first(s: Seq<char>, n: int, dotted: bool)
    requires
        0 <= n <= s.len(),
    ensures
        camel_prefix(s, n, dotted).len() == 0 ==> forall|k: int|
            0 <= k < n ==> is_word_sep(#[trigger] s[k], dotted),
        camel_prefix(s, n, dotted).len() > 0 ==> camel_prefix(s, n, dotted)[0]
            == spec_ascii_upper(camel_prefix(s, n, dotted)[0]),
    decreases n,
{
    if n > 0 {
        lemma_camel_prefix_first(s, n - 1, dotted);
        if camel_prefix(s, n - 1, dotted).len() == 0 {
            lemma_ascii_upper_idempotent(s[n - 1]);
        }
    }
}

/// Without separators, the camel-case form only upper-cases the first character.
proof fn lemma_camel_prefix_of_word(t: Seq<char>, n: int, dotted: bool)
    requires
        1 <= n <= t.len(),
        forall|k: int| 0 <= k < t.len() ==> !is_word_sep(#[trigger] t[k], dotted),
    ensures
        camel_prefix(t, n, dotted) =~= seq![spec_ascii_upper(t[0])] + t.subrange(1, n),
    decreases n,
{
    assert(!is_word_sep(t[n - 1], dotted));
    if n > 1 {
        lemma_camel_prefix_of_word(t, n - 1, dotted);
        assert(!is_word_sep(t[n - 2], dotted));
        assert(camel_piece(t, n - 1, dotted) == seq![t[n - 1]]);
        assert(t.subrange(1, n) =~= t.subrange(1, n - 1).push(t[n - 1]));
    } else {
        assert(camel_prefix(t, 0, dotted) =~= Seq::<char>::empty());
        assert(camel_piece(t, 0, dotted) == seq![spec_ascii_upper(t[0])]);
    }
}

/// Converting a camel-case name to camel case again changes nothing.
pub proof fn lemma_snake_to_camel_idempotent(s: Seq<char>)
    ensures
        spec_snake_to_camel(spec_snake_to_camel(s)) == spec_snake_to_camel(s),
{
    let t = spec_snake_to_camel(s);
    lemma_camel_prefix_no_sep(s, s.len() as int, false);
    lemma_camel_prefix_first(s, s.len() as int, false);
    if t.len() > 0 {
        lemma_camel_prefix_of_word(t, t.len() as int, false);
        assert(t =~= seq![t[0]] + t.subrange(1, t.len() as int));
    }
}

/// Converting a dotted camel-case name to dotted camel case again changes nothing.
pub proof fn lemma_dotted_snake_to_camel_idempotent(s: Seq<char>)
    ensures
        spec_dotted_snake_to_camel(spec_dotted_snake_to_camel(s)) == spec_dotted_snake_to_camel(s),
{
    let t = spec_dotted_snake_to_camel(s);
    lemma_camel_prefix_no_sep(s, s.len() as int, true);
    lemma_camel_prefix_first(s, s.len() as int, true);
    if t.len() > 0 {
        lemma_camel_prefix_of_word(t, t.len() as int, true);
        assert(t =~= seq![t[0]] + t.subrange(1, t.len() as int));
    }
}

/// Camel case keeps every character but the separators.
proof fn lemma_camel_prefix_len(s: Seq<char>, n: int, dotted: bool)
    requires
        0 <= n <= s.len(),
    ensures
        camel_prefix(s, n, dotted).len() == n - s.subrange(0, n).filter(
            |c: char| is_word_sep(c, dotted),
        ).len(),
    decreases n,
{
    if n > 0 {
        lemma_camel_prefix_len(s, n - 1, dotted);
        let f = |c: char| is_word_sep(c, dotted);
        assert(s.subrange(0, n).drop_last() =~= s.subrange(0, n - 1));
        reveal(Seq::filter);
    }
}

/// The camel-case form is as long as the name without its underscores.
pub proof fn lemma_snake_to_camel_len(s: Seq<char>)
    ensures
        spec_snake_to_camel(s).len() == s.len() - s.filter(|c: char| c == '_').len(),
{
    lemma_camel_prefix_len(s, s.len() as int, false);
    assert(s.subrange(0, s.len() as int) =~= s);
    assert((|c: char| is_word_sep(c, false)) =~= (|c: char| c == '_'));
}

/// Where a name holds no `.`, both camel-case conversions agree.
pub proof fn lemma_dotted_agrees_without_dot(s: Seq<char>)
    requires
        !s.contains('.'),
    ensures
        spec_dotted_snake_to_camel(s) == spec_snake_to_camel(s),
{
    assert forall|n: int| 0 <= n <= s.len() implies #[trigger] camel_prefix(s, n, true)
        == camel_prefix(s, n, false) by {
        lemma_camel_prefix_agree(s, n);
    }
}

proof fn lemma_camel_prefix_agree(s: Seq<char>, n: int)
    requires
        !s.contains('.'),
        0 <= n <= s.len(),
    ensures
        camel_prefix(s, n, true) == camel_prefix(s, n, false),
    decreases n,
{
    if n > 0 {
        lemma_camel_prefix_agree(s, n - 1);
        assert(s[n - 1] != '.');
        if n > 1 {
            assert(s[n - 2] != '.');
        }
    }
}

/// The upper-case form keeps the length, and upper-casing it again changes nothing.
pub proof fn lemma_snake_to_screaming(s: Seq<char>)
    ensures
        spec_snake_to_screaming(s).len() == s.len(),
        spec_snake_to_screaming(spec_snake_to_screaming(s)) == spec_snake_to_screaming(s),
{
    assert forall|k: int| 0 <= k < s.len() implies #[trigger] spec_snake_to_screaming(
        spec_snake_to_screaming(s),
    )[k] == spec_snake_to_screaming(s)[k] by {
        lemma_ascii_upper_idempotent(s[k]);
    }
    assert(spec_snake_to_screaming(spec_snake_to_screaming(s)) =~= spec_snake_to_screaming(s));
}

/// A decimal representation is not empty and holds only digits.
pub proof fn lemma_decimal_digits(n: nat)
    ensures
        spec_decimal(n).len() > 0,
        forall|k: int|
            0 <= k < spec_decimal(n).len() ==> '0' <= #[trigger] spec_decimal(n)[k] <= '9',
    decreases n,
{
    if n >= 10 {
        lemma_decimal_digits(n / 10);
    }
    let d = (n % 10) as int;
    let c = spec_digit(d);
    assert(c as int == d + 48);
    if n < 10 {
        assert((spec_digit(n as int)) as int == n + 48);
    }
}

} // verus!
