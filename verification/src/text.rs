//! Text as sequences of characters: case folding, searching, trimming and
//! decimal numerals.
use vstd::prelude::*;
use vstd::string::*;

verus! {

broadcast use vstd::string::group_string_axioms;

/// The ASCII lower-case form of one character; characters outside `A..=Z` are kept.
pub open spec fn ascii_lower(c: char) -> char {
    if 'A' <= c && c <= 'Z' {
        (c as u32 + 32) as char
    } else {
        c
    }
}

/// Every character replaced by its ASCII lower-case form.
pub open spec fn ascii_lowercase(s: Seq<char>) -> Seq<char> {
    Seq::new(s.len(), |i: int| ascii_lower(s[i]))
}

/// Does `needle` occur in `s` at position `at`?
pub open spec fn occurs_at(s: Seq<char>, needle: Seq<char>, at: int) -> bool {
    &&& 0 <= at
    &&& at + needle.len() <= s.len()
    &&& s.subrange(at, at + needle.len()) == needle
}

/// Does `needle` occur anywhere in `s`?
pub open spec fn occurs_in(s: Seq<char>, needle: Seq<char>) -> bool {
    exists|at: int| occurs_at(s, needle, at)
}

/// Does `s` end in `suffix`?
pub open spec fn ends_in(s: Seq<char>, suffix: Seq<char>) -> bool {
    occurs_at(s, suffix, s.len() - suffix.len())
}

/// The Unicode property `White_Space`.
pub open spec fn white_space(c: char) -> bool {
    let n = c as u32;
    ||| 0x9 <= n <= 0xd
    ||| n == 0x20
    ||| n == 0x85
    ||| n == 0xa0
    ||| n == 0x1680
    ||| 0x2000 <= n <= 0x200a
    ||| n == 0x2028
    ||| n == 0x2029
    ||| n == 0x202f
    ||| n == 0x205f
    ||| n == 0x3000
}

/// The Unicode general category `Cc`.
pub open spec fn control_character(c: char) -> bool {
    let n = c as u32;
    n <= 0x1f || 0x7f <= n <= 0x9f
}

/// `s` without its leading white space.
pub open spec fn trimmed_start(s: Seq<char>) -> Seq<char>
    decreases s.len(),
{
    if s.len() > 0 && white_space(s[0]) {
        trimmed_start(s.drop_first())
    } else {
        s
    }
}

/// `s` without its trailing white space.
pub open spec fn trimmed_end(s: Seq<char>) -> Seq<char>
    decreases s.len(),
{
    if s.len() > 0 && white_space(s.last()) {
        trimmed_end(s.drop_last())
    } else {
        s
    }
}

/// `s` without leading and trailing white space.
pub open spec fn trimmed(s: Seq<char>) -> Seq<char> {
    trimmed_end(trimmed_start(s))
}

/// The decimal digit for `d`.
pub open spec fn digit(d: nat) -> char {
    ('0' as u32 + d) as char
}

/// The decimal numeral of `n`, without leading zeros.
pub open spec fn decimal(n: nat) -> Seq<char>
    decreases n,
{
    if n < 10 {
        seq![digit(n)]
    } else {
        decimal(n / 10).push(digit(n % 10))
    }
}

/// What an optional text says.
pub open spec fn optional_text(t: Option<String>) -> Option<Seq<char>> {
    match t {
        Some(s) => Some(s@),
        None => None,
    }
}

/// What a result of two texts says.
pub open spec fn text_result(r: Result<String, String>) -> Result<Seq<char>, Seq<char>> {
    match r {
        Ok(s) => Ok(s@),
        Err(s) => Err(s@),
    }
}

/// `prefix` followed by `detail`.
pub fn labelled(prefix: &str, detail: &str) -> (r: String)
    ensures
        r@ == prefix@ + detail@,
{
    let mut r = prefix.to_string();
    r.append(detail);
    r
}

/// Is `c` in the Unicode property `White_Space`?
pub fn is_white_space(c: char) -> (r: bool)
    ensures
        r == white_space(c),
{
    let n: u32 = c as u32;
    (0x9 <= n && n <= 0xd) || n == 0x20 || n == 0x85 || n == 0xa0 || n == 0x1680 || (0x2000 <= n
        && n <= 0x200a) || n == 0x2028 || n == 0x2029 || n == 0x202f || n == 0x205f || n == 0x3000
}

/// Is `c` in the Unicode general category `Cc`?
pub fn is_control_character(c: char) -> (r: bool)
    ensures
        r == control_character(c),
{
    let n: u32 = c as u32;
    n <= 0x1f || (0x7f <= n && n <= 0x9f)
}

/// The characters of `s`.
pub fn characters(s: &str) -> (r: Vec<char>)
    ensures
        r@ == s@,
{
    let mut r: Vec<char> = Vec::new();
    for c in it: s.chars()
        invariant
            r@ == s@.take(it.index() as int),
            it.seq() == s@,
    {
        r.push(c);
    }
    r
}

/// The ASCII lower-case form of `c`.
fn lower_character(c: char) -> (r: char)
    ensures
        r == ascii_lower(c),
{
    if 'A' <= c && c <= 'Z' {
        let n: u8 = c as u8;
        (n + 32) as char
    } else {
        c
    }
}

/// The characters of `s`, each in its ASCII lower-case form.
pub fn lowercase_characters(s: &str) -> (r: Vec<char>)
    ensures
        r@ == ascii_lowercase(s@),
{
    let all = characters(s);
    let mut r: Vec<char> = Vec::new();
    let mut i: usize = 0;
    while i < all.len()
        invariant
            i <= all.len(),
            all@ == s@,
            r@ == ascii_lowercase(s@).take(i as int),
        decreases all.len() - i,
    {
        r.push(lower_character(all[i]));
        i = i + 1;
    }
    r
}

/// Does `needle` occur in `s` at position `at`?
pub fn matches_at(s: &Vec<char>, needle: &Vec<char>, at: usize) -> (r: bool)
    ensures
        r == occurs_at(s@, needle@, at as int),
{
    if at > s.len() || needle.len() > s.len() - at {
        return false;
    }
    let mut i: usize = 0;
    while i < needle.len()
        invariant
            i <= needle.len(),
            at + needle.len() <= s.len(),
            s@.subrange(at as int, at + i) == needle@.take(i as int),
        decreases needle.len() - i,
    {
        if s[at + i] != needle[i] {
            proof {
                assert(s@.subrange(at as int, at + needle.len())[i as int] != needle@[i as int]);
            }
            return false;
        }
        i = i + 1;
    }
    assert(needle@.take(i as int) == needle@);
    true
}

/// Does `needle` occur anywhere in `s`?
pub fn has_text(s: &Vec<char>, needle: &str) -> (r: bool)
    ensures
        r == occurs_in(s@, needle@),
{
    let wanted = characters(needle);
    let mut at: usize = 0;
    while at < s.len()
        invariant
            at <= s.len(),
            wanted@ == needle@,
            forall|k: int| 0 <= k < at ==> !occurs_at(s@, needle@, k),
        decreases s.len() - at,
    {
        if matches_at(s, &wanted, at) {
            return true;
        }
        at = at + 1;
    }
    matches_at(s, &wanted, at)
}

/// Does `s` end in `suffix`?
pub fn has_suffix(s: &Vec<char>, suffix: &str) -> (r: bool)
    ensures
        r == ends_in(s@, suffix@),
{
    let wanted = characters(suffix);
    if wanted.len() > s.len() {
        false
    } else {
        matches_at(s, &wanted, s.len() - wanted.len())
    }
}

proof fn lemma_trimmed_start_skips(s: Seq<char>, n: int)
    requires
        0 <= n <= s.len(),
        forall|i: int| 0 <= i < n ==> white_space(s[i]),
    ensures
        trimmed_start(s) == trimmed_start(s.skip(n)),
    decreases n,
{
    if n == 0 {
        assert(s.skip(0) == s);
    } else {
        lemma_trimmed_start_skips(s.drop_first(), n - 1);
        assert(s.drop_first().skip(n - 1) == s.skip(n));
    }
}

proof fn lemma_trimmed_end_takes(s: Seq<char>, n: int)
    requires
        0 <= n <= s.len(),
        forall|i: int| n <= i < s.len() ==> white_space(s[i]),
    ensures
        trimmed_end(s) == trimmed_end(s.take(n)),
    decreases s.len() - n,
{
    if n == s.len() {
        assert(s.take(n) == s);
    } else {
        lemma_trimmed_end_takes(s.drop_last(), n);
        assert(s.drop_last().take(n) == s.take(n));
    }
}

/// `s` without leading and trailing white space.
pub fn trim(s: &str) -> (r: String)
    ensures
        r@ == trimmed(s@),
{
    let all = characters(s);
    let mut start: usize = 0;
    while start < all.len() && is_white_space(all[start])
        invariant
            start <= all.len(),
            forall|i: int| 0 <= i < start ==> white_space(all[i]),
        decreases all.len() - start,
    {
        start = start + 1;
    }
    let mut end: usize = all.len();
    while start < end && is_white_space(all[end - 1])
        invariant
            start <= end <= all.len(),
            forall|i: int| end <= i < all.len() ==> white_space(all[i]),
        decreases end,
    {
        end = end - 1;
    }
    proof {
        let rest = all@.skip(start as int);
        lemma_trimmed_start_skips(all@, start as int);
        assert(trimmed_start(rest) == rest);
        lemma_trimmed_end_takes(rest, end - start);
        assert(rest.take(end - start) == all@.subrange(start as int, end as int));
    }
    s.substring_char(start, end).to_string()
}

/// The numeral of one digit.
fn digit_text(d: u64) -> (r: &'static str)
    requires
        d < 10,
    ensures
        r@ == seq![digit(d as nat)],
{
    proof {
        reveal_strlit("0");
        reveal_strlit("1");
        reveal_strlit("2");
        reveal_strlit("3");
        reveal_strlit("4");
        reveal_strlit("5");
        reveal_strlit("6");
        reveal_strlit("7");
        reveal_strlit("8");
        reveal_strlit("9");
    }
    if d == 0 {
        "0"
    } else if d == 1 {
        "1"
    } else if d == 2 {
        "2"
    } else if d == 3 {
        "3"
    } else if d == 4 {
        "4"
    } else if d == 5 {
        "5"
    } else if d == 6 {
        "6"
    } else if d == 7 {
        "7"
    } else if d == 8 {
        "8"
    } else {
        "9"
    }
}

/// The decimal numeral of `n`.
pub fn decimal_text(n: u64) -> (r: String)
    ensures
        r@ == decimal(n as nat),
    decreases n,
{
    if n < 10 {
        digit_text(n).to_string()
    } else {
        let mut r = decimal_text(n / 10);
        r.append(digit_text(n % 10));
        r
    }
}

/// Two numbers with the same decimal numeral are the same number.
pub proof fn law_decimal_injective(a: nat, b: nat)
    requires
        decimal(a) == decimal(b),
    ensures
        a == b,
    decreases a,
{
    if a < 10 && b < 10 {
        assert(decimal(a)[0] == digit(a) && decimal(b)[0] == digit(b));
    } else if a < 10 {
        lemma_decimal_nonempty(b / 10);
        assert(decimal(a).len() == 1);
        assert(decimal(b).len() == decimal(b / 10).len() + 1);
    } else if b < 10 {
        lemma_decimal_nonempty(a / 10);
        assert(decimal(b).len() == 1);
        assert(decimal(a).len() == decimal(a / 10).len() + 1);
    } else {
        assert(decimal(a).last() == digit(a % 10) && decimal(b).last() == digit(b % 10));
        assert(decimal(a).drop_last() == decimal(a / 10));
        assert(decimal(b).drop_last() == decimal(b / 10));
        law_decimal_injective(a / 10, b / 10);
    }
}

proof fn lemma_decimal_nonempty(n: nat)
    ensures
        decimal(n).len() > 0,
{
}

/// Trimming twice is trimming once.
pub proof fn law_trimmed_idempotent(s: Seq<char>)
    ensures
        trimmed(trimmed(s)) == trimmed(s),
{
    lemma_trimmed_start_head(s);
    lemma_trimmed_end_shape(trimmed_start(s));
    lemma_trimmed_end_shape(trimmed(s));
}

proof fn lemma_trimmed_start_head(s: Seq<char>)
    ensures
        trimmed_start(s).len() > 0 ==> !white_space(trimmed_start(s)[0]),
    decreases s.len(),
{
    if s.len() > 0 && white_space(s[0]) {
        lemma_trimmed_start_head(s.drop_first());
    }
}

proof fn lemma_trimmed_end_shape(s: Seq<char>)
    ensures
        trimmed_end(s).len() <= s.len(),
        trimmed_end(s) == s.take(trimmed_end(s).len() as int),
        trimmed_end(s).len() > 0 ==> !white_space(trimmed_end(s).last()),
        trimmed_end(trimmed_end(s)) == trimmed_end(s),
    decreases s.len(),
{
    if s.len() > 0 && white_space(s.last()) {
        lemma_trimmed_end_shape(s.drop_last());
        assert(s.drop_last().take(trimmed_end(s).len() as int) == s.take(
            trimmed_end(s).len() as int,
        ));
    } else {
        assert(s.take(s.len() as int) == s);
    }
}

/// Lower-casing keeps the number of characters, moves each of the letters `A` to `Z` to the
/// letter 32 places further on, and keeps every other character.
pub proof fn law_lowercase_changes_capitals_only(s: Seq<char>)
    ensures
        ascii_lowercase(s).len() == s.len(),
        forall|i: int|
            0 <= i < s.len() ==> if 65 <= s[i] as u32 <= 90 {
                #[trigger] ascii_lowercase(s)[i] as u32 == s[i] as u32 + 32
            } else {
                ascii_lowercase(s)[i] == s[i]
            },
{
}

/// A text is lower-cased piece by piece, and lower-casing it again changes nothing.
pub proof fn law_lowercase_goes_piece_by_piece(a: Seq<char>, b: Seq<char>)
    ensures
        ascii_lowercase(a + b) == ascii_lowercase(a) + ascii_lowercase(b),
        ascii_lowercase(ascii_lowercase(a)) == ascii_lowercase(a),
{
}

/// Is `s` made of something, `part` and something more?
pub open spec fn has_part(s: Seq<char>, part: Seq<char>) -> bool {
    exists|before: Seq<char>, after: Seq<char>| s == #[trigger] (before + part + after)
}

/// Is `s` made of something and `last`?
pub open spec fn has_last_part(s: Seq<char>, last: Seq<char>) -> bool {
    exists|before: Seq<char>| s == #[trigger] (before + last)
}

/// A text occurs in another exactly when that is made of something, the text and something
/// more.
pub proof fn law_occurs_in_is_a_part(s: Seq<char>, needle: Seq<char>)
    ensures
        occurs_in(s, needle) <==> has_part(s, needle),
{
    if occurs_in(s, needle) {
        let at = choose|at: int| occurs_at(s, needle, at);
        assert(s =~= s.take(at) + needle + s.skip(at + needle.len())) by {
            assert(s =~= s.take(at) + s.subrange(at, at + needle.len()) + s.skip(
                at + needle.len(),
            ));
        }
    }
    if has_part(s, needle) {
        let (before, after) = choose|before: Seq<char>, after: Seq<char>|
            s == #[trigger] (before + needle + after);
        let at = before.len() as int;
        assert(s.subrange(at, at + needle.len()) =~= needle);
        assert(occurs_at(s, needle, at));
    }
}

/// A text ends in another exactly when it is made of something and that other.
pub proof fn law_ends_in_is_the_last_part(s: Seq<char>, suffix: Seq<char>)
    ensures
        ends_in(s, suffix) <==> has_last_part(s, suffix),
{
    let at = s.len() - suffix.len();
    if ends_in(s, suffix) {
        assert(s =~= s.take(at) + s.subrange(at, s.len() as int));
        assert(s =~= s.take(at) + suffix);
    }
    if has_last_part(s, suffix) {
        let before = choose|before: Seq<char>| s == #[trigger] (before + suffix);
        assert(s.subrange(at, s.len() as int) =~= suffix);
    }
}

/// White space is the blank, the characters from the tabulator to the carriage return, and
/// the blanks and separators of Unicode.
pub proof fn law_white_space_is_blank(c: char)
    ensures
        white_space(c) <==> {
            ||| c == ' ' || c == '\t' || c == '\n' || c == '\u{b}' || c == '\u{c}' || c == '\r'
            ||| c == '\u{85}' || c == '\u{a0}' || c == '\u{1680}'
            ||| '\u{2000}' <= c && c <= '\u{200a}'
            ||| c == '\u{2028}' || c == '\u{2029}' || c == '\u{202f}' || c == '\u{205f}'
            ||| c == '\u{3000}'
        },
{
}

/// Control characters are those before the blank, and those from delete to the end of the
/// second such range.
pub proof fn law_control_characters(c: char)
    ensures
        control_character(c) <==> c < ' ' || ('\u{7f}' <= c && c <= '\u{9f}'),
{
}

/// Is `s` all white space?
pub open spec fn is_blank(s: Seq<char>) -> bool {
    forall|i: int| 0 <= i < s.len() ==> white_space(#[trigger] s[i])
}

/// Is `inside` what is left of `s` when white space is cut off at both ends, until nothing
/// more can be cut off?
pub open spec fn is_inside(s: Seq<char>, inside: Seq<char>) -> bool {
    &&& inside.len() > 0 ==> !white_space(inside[0]) && !white_space(inside.last())
    &&& exists|before: Seq<char>, after: Seq<char>|
        s == #[trigger] (before + inside + after) && is_blank(before) && is_blank(after)
}

/// Trimming cuts off white space, nothing else, and all of it; and only one text is left
/// when that is done.
pub proof fn law_trimmed_is_the_inside(s: Seq<char>, other: Seq<char>)
    ensures
        is_inside(s, trimmed(s)),
        is_inside(s, other) ==> other == trimmed(s),
{
    lemma_trimmed_start_split(s);
    lemma_trimmed_start_head(s);
    let middle = trimmed_start(s);
    lemma_trimmed_end_shape(middle);
    lemma_trimmed_end_split(middle);
    let kept = trimmed(s);
    let before = s.take(s.len() - middle.len());
    let after = middle.skip(kept.len() as int);
    assert(s =~= before + kept + after);
    if is_inside(s, other) {
        let (front, back) = choose|front: Seq<char>, back: Seq<char>|
            s == #[trigger] (front + other + back) && is_blank(front) && is_blank(back);
        assert forall|i: int| 0 <= i < front.len() implies white_space(s[i]) by {
            assert(s[i] == front[i]);
        }
        lemma_trimmed_start_skips(s, front.len() as int);
        let rest = s.skip(front.len() as int);
        assert(rest =~= other + back);
        if other.len() > 0 {
            assert(rest[0] == other[0]);
            assert(trimmed_start(rest) == rest);
            assert forall|i: int| other.len() <= i < rest.len() implies white_space(rest[i]) by {
                assert(rest[i] == back[i - other.len()]);
            }
            lemma_trimmed_end_takes(rest, other.len() as int);
            assert(rest.take(other.len() as int) =~= other);
        } else {
            assert(rest =~= back);
            lemma_trimmed_start_skips(rest, rest.len() as int);
            assert(rest.skip(rest.len() as int) =~= Seq::<char>::empty());
            assert(trimmed(s) =~= other);
        }
    }
}

proof fn lemma_trimmed_start_split(s: Seq<char>)
    ensures
        trimmed_start(s).len() <= s.len(),
        trimmed_start(s) == s.skip(s.len() - trimmed_start(s).len()),
        is_blank(s.take(s.len() - trimmed_start(s).len())),
    decreases s.len(),
{
    if s.len() > 0 && white_space(s[0]) {
        let rest = s.drop_first();
        lemma_trimmed_start_split(rest);
        let n = rest.len() - trimmed_start(rest).len();
        assert(s.skip(n + 1) =~= rest.skip(n));
        assert forall|i: int| 0 <= i < n + 1 implies white_space(
            #[trigger] s.take(n + 1)[i],
        ) by {
            if i > 0 {
                assert(rest.take(n)[i - 1] == s[i]);
            }
        }
    } else {
        assert(s.skip(0) =~= s);
    }
}

proof fn lemma_trimmed_end_split(s: Seq<char>)
    ensures
        trimmed_end(s).len() <= s.len(),
        is_blank(s.skip(trimmed_end(s).len() as int)),
    decreases s.len(),
{
    if s.len() > 0 && white_space(s.last()) {
        let rest = s.drop_last();
        lemma_trimmed_end_split(rest);
        let n = trimmed_end(rest).len() as int;
        assert forall|i: int| 0 <= i < s.len() - n implies white_space(
            #[trigger] s.skip(n)[i],
        ) by {
            if i < rest.len() - n {
                assert(rest.skip(n)[i] == s[i + n]);
            }
        }
    }
}

/// The number that a sequence of decimal digits stands for.
pub open spec fn numeral_value(s: Seq<char>) -> int
    decreases s.len(),
{
    if s.len() == 0 {
        0
    } else {
        10 * numeral_value(s.drop_last()) + (s.last() as u32 - '0' as u32)
    }
}

/// The decimal numeral of a number is made of decimal digits, stands for that number, and
/// has no zero in front, but for zero itself.
pub proof fn law_decimal_stands_for_its_number(n: nat)
    ensures
        decimal(n).len() > 0,
        forall|i: int| 0 <= i < decimal(n).len() ==> '0' <= #[trigger] decimal(n)[i] && decimal(
            n,
        )[i] <= '9',
        numeral_value(decimal(n)) == n,
        decimal(n)[0] == '0' ==> n == 0,
    decreases n,
{
    if n < 10 {
        assert(decimal(n).drop_last() =~= Seq::<char>::empty());
        assert(numeral_value(decimal(n).drop_last()) == 0);
    } else {
        law_decimal_stands_for_its_number(n / 10);
        assert(decimal(n).drop_last() =~= decimal(n / 10));
        assert(decimal(n)[0] == decimal(n / 10)[0]);
        assert forall|i: int| 0 <= i < decimal(n).len() implies '0' <= #[trigger] decimal(n)[i]
            && decimal(n)[i] <= '9' by {
            if i < decimal(n / 10).len() {
                assert(decimal(n)[i] == decimal(n / 10)[i]);
            }
        }
    }
}

/// An optional text says what it holds, and nothing if it holds nothing; a result says what
/// it holds, as the same kind of result.
pub proof fn law_texts_are_kept_whole(s: String)
    ensures
        optional_text(Some(s)) == Some(s@),
        optional_text(None) is None,
        text_result(Ok(s)) == Ok::<Seq<char>, Seq<char>>(s@),
        text_result(Err(s)) == Err::<Seq<char>, Seq<char>>(s@),
{
}

} // verus!
