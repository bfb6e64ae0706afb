//! Text as a sequence of characters: whitespace, prefixes, substrings, lines.

use vstd::prelude::*;

verus! {

/// The characters with the Unicode property `White_Space`.
pub open spec fn is_whitespace_char(c: char) -> bool {
    let u = c as u32;
    ||| 0x09 <= u <= 0x0D
    ||| u == 0x20
    ||| u == 0x85
    ||| u == 0xA0
    ||| u == 0x1680
    ||| 0x2000 <= u <= 0x200A
    ||| u == 0x2028
    ||| u == 0x2029
    ||| u == 0x202F
    ||| u == 0x205F
    ||| u == 0x3000
}

/// How many characters at the start of `s` are whitespace.
pub open spec fn leading_whitespace(s: Seq<char>) -> nat
    decreases s.len(),
{
    if s.len() > 0 && is_whitespace_char(s[0]) {
        1 + leading_whitespace(s.drop_first())
    } else {
        0
    }
}

/// `s` without its leading whitespace.
pub open spec fn trim_start(s: Seq<char>) -> Seq<char> {
    s.skip(leading_whitespace(s) as int)
}

/// `pattern` stands in `s` at position `at`.
pub open spec fn matches_at(s: Seq<char>, at: int, pattern: Seq<char>) -> bool {
    &&& 0 <= at
    &&& at + pattern.len() <= s.len()
    &&& s.subrange(at, at + pattern.len()) == pattern
}

/// `s`, after its leading whitespace, begins with `prefix`.
pub open spec fn has_prefix(s: Seq<char>, prefix: Seq<char>) -> bool {
    prefix.is_prefix_of(trim_start(s))
}

/// `needle` stands somewhere in `s`.
pub open spec fn has_substring(s: Seq<char>, needle: Seq<char>) -> bool {
    exists|at: int| matches_at(s, at, needle)
}

/// The position just after the last line feed among the first `end`
/// characters of `s`, or 0 where there is none.
pub open spec fn last_line_start(s: Seq<char>, end: int) -> int
    decreases end,
{
    if end <= 0 || end > s.len() {
        0
    } else if s[end - 1] == '\n' {
        end
    } else {
        last_line_start(s, end - 1)
    }
}

/// Where the last line of `s` lies, without its line ending: the
/// position of its first character and the position after its last. A
/// line ends with a line feed, or with a carriage return and a line feed;
/// the last line may go without. A text of no characters has no line.
pub open spec fn last_line_span(s: Seq<char>) -> Option<(int, int)> {
    if s.len() == 0 {
        None
    } else {
        let terminated = s.last() == '\n';
        let body_end = if terminated {
            s.len() - 1
        } else {
            s.len() as int
        };
        let start = last_line_start(s.subrange(0, body_end), body_end);
        if terminated && start < body_end && s[body_end - 1] == '\r' {
            Some((start, body_end - 1))
        } else {
            Some((start, body_end))
        }
    }
}

/// The last line of `s`, without its line ending.
pub open spec fn last_line(s: Seq<char>) -> Option<Seq<char>> {
    match last_line_span(s) {
        None => None,
        Some((start, end)) => Some(s.subrange(start, end)),
    }
}

/// Position `i` of a text is disclosed: `withheld` has an entry for it
/// and the entry says so.
pub open spec fn disclosed_at(withheld: Seq<bool>, i: int) -> bool {
    0 <= i < withheld.len() && !withheld[i]
}

/// Every position from `from` up to, not including, `to` is disclosed.
pub open spec fn span_disclosed(withheld: Seq<bool>, from: int, to: int) -> bool {
    forall|i: int| from <= i < to ==> #[trigger] disclosed_at(withheld, i)
}

/// The leading whitespace is whitespace, and what follows it is not.
pub proof fn lemma_leading_whitespace_bound(s: Seq<char>)
    ensures
        leading_whitespace(s) <= s.len(),
        forall|i: int| 0 <= i < leading_whitespace(s) ==> is_whitespace_char(#[trigger] s[i]),
        leading_whitespace(s) < s.len() ==> !is_whitespace_char(s[leading_whitespace(s) as int]),
    decreases s.len(),
{
    if s.len() > 0 && is_whitespace_char(s[0]) {
        let rest = s.drop_first();
        lemma_leading_whitespace_bound(rest);
        assert forall|i: int| 0 <= i < leading_whitespace(s) implies is_whitespace_char(
            #[trigger] s[i],
        ) by {
            if i > 0 {
                assert(s[i] == rest[i - 1]);
            }
        }
        if leading_whitespace(s) < s.len() {
            assert(s[leading_whitespace(s) as int] == rest[leading_whitespace(rest) as int]);
        }
    }
}

/// The count of leading whitespace is the one position up to which all is
/// whitespace and at which something else, or the end, stands.
pub proof fn lemma_leading_whitespace_is(s: Seq<char>, n: int)
    requires
        0 <= n <= s.len(),
        forall|i: int| 0 <= i < n ==> is_whitespace_char(#[trigger] s[i]),
        n < s.len() ==> !is_whitespace_char(s[n]),
    ensures
        leading_whitespace(s) == n,
    decreases s.len(),
{
    if n == 0 {
    } else {
        let rest = s.drop_first();
        assert(is_whitespace_char(s[0]));
        assert forall|i: int| 0 <= i < n - 1 implies is_whitespace_char(#[trigger] rest[i]) by {
            assert(rest[i] == s[i + 1]);
        }
        if n - 1 < rest.len() {
            assert(rest[n - 1] == s[n]);
        }
        lemma_leading_whitespace_is(rest, n - 1);
    }
}

/// Leading whitespace does not change what a text begins with: putting
/// whitespace in front of `s` leaves `has_prefix` as it was.
pub proof fn lemma_prefix_ignores_leading_whitespace(
    padding: Seq<char>,
    s: Seq<char>,
    prefix: Seq<char>,
)
    requires
        forall|i: int| 0 <= i < padding.len() ==> is_whitespace_char(#[trigger] padding[i]),
    ensures
        trim_start(padding + s) == trim_start(s),
        has_prefix(padding + s, prefix) == has_prefix(s, prefix),
{
    let whole = padding + s;
    let n = padding.len() + leading_whitespace(s);
    lemma_leading_whitespace_bound(s);
    assert forall|i: int| 0 <= i < n implies is_whitespace_char(#[trigger] whole[i]) by {
        if i >= padding.len() {
            assert(whole[i] == s[i - padding.len()]);
        }
    }
    if n < whole.len() {
        assert(whole[n as int] == s[leading_whitespace(s) as int]);
    }
    lemma_leading_whitespace_is(whole, n as int);
    assert(whole.skip(n as int) =~= s.skip(leading_whitespace(s) as int));
}

/// Whether `c` is whitespace.
pub fn is_whitespace(c: char) -> (b: bool)
    ensures
        b == is_whitespace_char(c),
{
    let u: u32 = c as u32;
    (0x09 <= u && u <= 0x0D) || u == 0x20 || u == 0x85 || u == 0xA0 || u == 0x1680 || (0x2000 <= u
        && u <= 0x200A) || u == 0x2028 || u == 0x2029 || u == 0x202F || u == 0x205F || u == 0x3000
}

/// The characters of `s`, in order.
pub fn chars_of(s: &str) -> (v: Vec<char>)
    ensures
        v@ == s@,
{
    let mut v: Vec<char> = Vec::new();
    for c in it: s.chars()
        invariant
            v@ == it.seq().take(it.index() as int),
            it.seq() == s@,
    {
        v.push(c);
    }
    v
}

/// The number of whitespace characters at the start of `s`.
pub fn count_leading_whitespace(s: &Vec<char>) -> (n: usize)
    ensures
        n == leading_whitespace(s@),
{
    let mut n: usize = 0;
    while n < s.len() && is_whitespace(s[n])
        invariant
            n <= s.len(),
            forall|i: int| 0 <= i < n ==> is_whitespace_char(#[trigger] s@[i]),
        decreases s.len() - n,
    {
        n = n + 1;
    }
    proof {
        lemma_leading_whitespace_is(s@, n as int);
    }
    n
}

/// Whether `pattern` stands in `s` at position `at`.
pub fn pattern_at(s: &Vec<char>, at: usize, pattern: &Vec<char>) -> (b: bool)
    ensures
        b == matches_at(s@, at as int, pattern@),
{
    if at > s.len() || pattern.len() > s.len() - at {
        return false;
    }
    let mut k: usize = 0;
    while k < pattern.len()
        invariant
            at + pattern.len() <= s.len(),
            k <= pattern.len(),
            forall|j: int| 0 <= j < k ==> s@[at + j] == pattern@[j],
        decreases pattern.len() - k,
    {
        if s[at + k] != pattern[k] {
            proof {
                let window = s@.subrange(at as int, at + pattern.len());
                assert(window[k as int] != pattern@[k as int]);
            }
            return false;
        }
        k = k + 1;
    }
    assert(s@.subrange(at as int, at + pattern.len()) =~= pattern@);
    true
}

/// Whether `s`, after its leading whitespace, begins with `prefix`.
pub fn starts_with_trimmed(s: &Vec<char>, prefix: &Vec<char>) -> (b: bool)
    ensures
        b == has_prefix(s@, prefix@),
{
    let skip = count_leading_whitespace(s);
    proof {
        lemma_leading_whitespace_bound(s@);
        let rest = trim_start(s@);
        if prefix@.len() <= rest.len() {
            assert(rest.subrange(0, prefix@.len() as int) =~= s@.subrange(
                skip as int,
                skip + prefix@.len(),
            ));
        }
    }
    pattern_at(s, skip, prefix)
}

/// The first position at which `needle` stands in `s`, if there is one.
pub fn find(s: &Vec<char>, needle: &Vec<char>) -> (r: Option<usize>)
    ensures
        r is Some <==> has_substring(s@, needle@),
        r matches Some(at) ==> matches_at(s@, at as int, needle@) && forall|j: int|
            0 <= j < at ==> !matches_at(s@, j, needle@),
{
    if needle.len() > s.len() {
        return None;
    }
    let last: usize = s.len() - needle.len();
    let mut at: usize = 0;
    loop
        invariant
            last == s.len() - needle.len(),
            at <= last,
            forall|j: int| 0 <= j < at ==> !matches_at(s@, j, needle@),
        decreases last - at,
    {
        if pattern_at(s, at, needle) {
            return Some(at);
        }
        if at == last {
            return None;
        }
        at = at + 1;
    }
}

/// Where the last line of `s` lies: the positions of its first character
/// and of the one after its last, or `None` where `s` has no line.
pub fn last_line_bounds(s: &Vec<char>) -> (r: Option<(usize, usize)>)
    ensures
        r is Some <==> last_line_span(s@) is Some,
        r matches Some((start, end)) ==> start <= end <= s.len() && last_line_span(s@) == Some(
            (start as int, end as int),
        ),
{
    let len = s.len();
    if len == 0 {
        return None;
    }
    let terminated = s[len - 1] == '\n';
    let body_end: usize = if terminated {
        len - 1
    } else {
        len
    };
    let ghost body = s@.subrange(0, body_end as int);
    let mut start: usize = body_end;
    while start > 0 && s[start - 1] != '\n'
        invariant
            start <= body_end <= len,
            len == s.len(),
            body == s@.subrange(0, body_end as int),
            last_line_start(body, body_end as int) == last_line_start(body, start as int),
        decreases start,
    {
        assert(body[start - 1] == s@[start - 1]);
        start = start - 1;
    }
    proof {
        if start > 0 {
            assert(body[start - 1] == s@[start - 1]);
        }
        assert(last_line_start(body, body_end as int) == start);
    }
    if terminated && start < body_end && s[body_end - 1] == '\r' {
        Some((start, body_end - 1))
    } else {
        Some((start, body_end))
    }
}

/// Whether every position from `from` up to, not including, `to` is
/// disclosed.
pub fn span_is_disclosed(withheld: &Vec<bool>, from: usize, to: usize) -> (clear: bool)
    ensures
        clear == span_disclosed(withheld@, from as int, to as int),
{
    if from >= to {
        return true;
    }
    if to > withheld.len() {
        assert(!disclosed_at(withheld@, to - 1));
        return false;
    }
    let mut i: usize = from;
    while i < to
        invariant
            from <= i <= to <= withheld.len(),
            forall|j: int| from <= j < i ==> #[trigger] disclosed_at(withheld@, j),
        decreases to - i,
    {
        if withheld[i] {
            assert(!disclosed_at(withheld@, i as int));
            return false;
        }
        i = i + 1;
    }
    true
}

/// `needle` stands in `s` on disclosed positions only, starting at `at`.
pub open spec fn disclosed_match(
    s: Seq<char>,
    withheld: Seq<bool>,
    at: int,
    needle: Seq<char>,
) -> bool {
    matches_at(s, at, needle) && span_disclosed(withheld, at, at + needle.len())
}

/// `needle` stands somewhere in `s` on disclosed positions only.
pub open spec fn has_disclosed_substring(
    s: Seq<char>,
    withheld: Seq<bool>,
    needle: Seq<char>,
) -> bool {
    exists|at: int| disclosed_match(s, withheld, at, needle)
}

/// `s`, after its leading whitespace, begins with `prefix`, and none of
/// the positions on which `prefix` stands is withheld.
pub open spec fn has_disclosed_prefix(
    s: Seq<char>,
    withheld: Seq<bool>,
    prefix: Seq<char>,
) -> bool {
    has_prefix(s, prefix) && span_disclosed(
        withheld,
        leading_whitespace(s) as int,
        (leading_whitespace(s) + prefix.len()) as int,
    )
}

/// The first position at which `needle` stands in `s` on disclosed
/// positions only, if there is one.
pub fn find_disclosed(s: &Vec<char>, withheld: &Vec<bool>, needle: &Vec<char>) -> (r: Option<
    usize,
>)
    ensures
        r is Some <==> has_disclosed_substring(s@, withheld@, needle@),
        r matches Some(at) ==> disclosed_match(s@, withheld@, at as int, needle@),
{
    if needle.len() > s.len() {
        return None;
    }
    let last: usize = s.len() - needle.len();
    let mut at: usize = 0;
    loop
        invariant
            last == s.len() - needle.len(),
            at <= last,
            forall|j: int| 0 <= j < at ==> !disclosed_match(s@, withheld@, j, needle@),
        decreases last - at,
    {
        if pattern_at(s, at, needle) && span_is_disclosed(withheld, at, at + needle.len()) {
            assert(disclosed_match(s@, withheld@, at as int, needle@));
            return Some(at);
        }
        if at == last {
            return None;
        }
        at = at + 1;
    }
}

/// Whether `s`, after its leading whitespace, begins with `prefix` on
/// disclosed positions only.
pub fn starts_with_disclosed(s: &Vec<char>, withheld: &Vec<bool>, prefix: &Vec<char>) -> (b:
    bool)
    ensures
        b == has_disclosed_prefix(s@, withheld@, prefix@),
{
    if !starts_with_trimmed(s, prefix) {
        return false;
    }
    let skip = count_leading_whitespace(s);
    let total = s.len();
    proof {
        lemma_leading_whitespace_bound(s@);
        assert(prefix@.len() <= trim_start(s@).len());
        assert(trim_start(s@).len() == s@.len() - skip);
        assert(skip + prefix.len() <= total);
    }
    span_is_disclosed(withheld, skip, skip + prefix.len())
}

/// What `str::to_lowercase` makes of a text: its lowercase form by the
/// Unicode case mappings.
pub uninterp spec fn lowercase_of(s: Seq<char>) -> Seq<char>;

/// Calls `core::str::from_utf8`. The contract says what its documentation
/// says: the call succeeds exactly on well-formed UTF-8, and the string
/// slice it gives has the bytes it was given.
#[verifier::external_body]
fn utf8_to_str(bytes: &[u8]) -> (r: Option<&str>)
    ensures
        r is Some <==> vstd::utf8::valid_utf8(bytes@),
        r matches Some(s) ==> vstd::utf8::encode_utf8(s@) == bytes@,
{
    match core::str::from_utf8(bytes) {
        Ok(s) => Some(s),
        Err(_) => None,
    }
}

/// Calls `str::to_lowercase`. The contract names the result and claims
/// only that it depends on the characters of `s` alone.
#[verifier::external_body]
fn str_to_lowercase(s: &str) -> (r: String)
    ensures
        r@ == lowercase_of(s@),
{
    s.to_lowercase()
}

/// The text that `bytes` encode in UTF-8, or `None` where they encode none.
pub fn decode_text(bytes: &[u8]) -> (r: Option<&str>)
    ensures
        r is Some <==> vstd::utf8::valid_utf8(bytes@),
        r matches Some(s) ==> s@ == vstd::utf8::decode_utf8(bytes@),
{
    let r = utf8_to_str(bytes);
    proof {
        if let Some(s) = r {
            vstd::utf8::encode_utf8_decode_utf8(s@);
        }
    }
    r
}

/// The lowercase form of an ASCII letter; any other character is left as
/// it is.
pub open spec fn ascii_lower(c: char) -> char {
    if 'A' <= c && c <= 'Z' {
        ((c as u32) + 32) as char
    } else {
        c
    }
}

/// The form in which names are compared. A name of ASCII characters is
/// taken letter by letter to its lowercase; any other name is taken to
/// what `str::to_lowercase` makes of it.
#[verifier::opaque]
pub open spec fn identity_form(name: Seq<char>) -> Seq<char> {
    if vstd::utf8::is_ascii_chars(name) {
        name.map_values(|c: char| ascii_lower(c))
    } else {
        lowercase_of(name)
    }
}

/// Whether `a` and `b` name the same identity: they do when the forms in
/// which names are compared are equal.
pub open spec fn same_identity_spec(a: Seq<char>, b: Seq<char>) -> bool {
    identity_form(a) == identity_form(b)
}

/// Naming the same identity is an equivalence: every name names its own
/// identity, and names that agree with a third agree with each other,
/// whichever way round they are held.
pub proof fn lemma_same_identity_is_equivalence(a: Seq<char>, b: Seq<char>, c: Seq<char>)
    ensures
        same_identity_spec(a, a),
        same_identity_spec(a, b) == same_identity_spec(b, a),
        same_identity_spec(a, b) && same_identity_spec(b, c) ==> same_identity_spec(a, c),
{
}

/// Names of ASCII characters name the same identity exactly when they are
/// equally long and agree letter by letter once the case of the letters
/// is set aside.
pub proof fn lemma_identity_ignores_ascii_case(a: Seq<char>, b: Seq<char>)
    requires
        vstd::utf8::is_ascii_chars(a),
        vstd::utf8::is_ascii_chars(b),
    ensures
        same_identity_spec(a, b) <==> a.len() == b.len() && forall|i: int|
            0 <= i < a.len() ==> ascii_lower(#[trigger] a[i]) == ascii_lower(b[i]),
{
    reveal(identity_form);
    let fa = identity_form(a);
    let fb = identity_form(b);
    if a.len() == b.len() && forall|i: int|
        0 <= i < a.len() ==> ascii_lower(#[trigger] a[i]) == ascii_lower(b[i]) {
        assert(fa =~= fb);
    }
    if fa == fb {
        assert(fa.len() == fb.len());
        assert forall|i: int| 0 <= i < a.len() implies ascii_lower(#[trigger] a[i]) == ascii_lower(
            b[i],
        ) by {
            assert(fa[i] == fb[i]);
        }
    }
}

/// The code of the lowercase form of `c` where `c` is an ASCII letter,
/// else the code of `c`.
fn lower_code(c: char) -> (code: u32)
    ensures
        code == ascii_lower(c) as u32,
{
    let u: u32 = c as u32;
    if 0x41 <= u && u <= 0x5A {
        u + 32
    } else {
        u
    }
}

/// The codes of the characters of the form in which `name` is compared.
fn identity_codes(name: &str) -> (codes: Vec<u32>)
    ensures
        codes@ == identity_form(name@).map_values(|c: char| c as u32),
{
    proof {
        reveal(identity_form);
    }
    let ghost form = identity_form(name@);
    let mut codes: Vec<u32> = Vec::new();
    if name.is_ascii() {
        let chars = chars_of(name);
        let mut i: usize = 0;
        while i < chars.len()
            invariant
                i <= chars.len(),
                chars@ == name@,
                form == name@.map_values(|c: char| ascii_lower(c)),
                codes@ == form.take(i as int).map_values(|c: char| c as u32),
            decreases chars.len() - i,
        {
            codes.push(lower_code(chars[i]));
            i = i + 1;
            assert(codes@ =~= form.take(i as int).map_values(|c: char| c as u32));
        }
        assert(form.take(i as int) =~= form);
    } else {
        let lower = str_to_lowercase(name);
        let chars = chars_of(lower.as_str());
        let mut i: usize = 0;
        while i < chars.len()
            invariant
                i <= chars.len(),
                chars@ == form,
                codes@ == form.take(i as int).map_values(|c: char| c as u32),
            decreases chars.len() - i,
        {
            codes.push(chars[i] as u32);
            i = i + 1;
            assert(codes@ =~= form.take(i as int).map_values(|c: char| c as u32));
        }
        assert(form.take(i as int) =~= form);
    }
    codes
}

/// Compares two names without regard to case.
pub fn same_identity(a: &str, b: &str) -> (same: bool)
    ensures
        same == same_identity_spec(a@, b@),
{
    let first = identity_codes(a);
    let second = identity_codes(b);
    let ghost fa = identity_form(a@);
    let ghost fb = identity_form(b@);
    assert(fa.len() == first.len() && fb.len() == second.len());
    if first.len() != second.len() {
        return false;
    }
    let mut i: usize = 0;
    while i < first.len()
        invariant
            i <= first.len(),
            first.len() == second.len(),
            fa == identity_form(a@),
            fb == identity_form(b@),
            fa.len() == first.len(),
            fb.len() == second.len(),
            first@ == fa.map_values(|c: char| c as u32),
            second@ == fb.map_values(|c: char| c as u32),
            forall|j: int| 0 <= j < i ==> fa[j] == fb[j],
        decreases first.len() - i,
    {
        let ghost x = fa[i as int];
        let ghost y = fb[i as int];
        assert(first@[i as int] == x as u32);
        assert(second@[i as int] == y as u32);
        if first[i] != second[i] {
            assert(x != y);
            return false;
        }
        proof {
            vstd::utf8::char_u32_cast(x, first@[i as int]);
            vstd::utf8::char_u32_cast(y, second@[i as int]);
        }
        assert(x == y);
        i = i + 1;
    }
    assert(fa =~= fb);
    true
}

} // verus!
