//! The text operations the other modules share: lines, blank text, trimming,
//! decimal numbers and joining.
use vstd::prelude::*;

verus! {

/// The characters with the Unicode `White_Space` property.
pub open spec fn white_space(c: char) -> bool {
    ||| '\u{9}' <= c <= '\u{d}'
    ||| c == ' '
    ||| c == '\u{85}'
    ||| c == '\u{a0}'
    ||| c == '\u{1680}'
    ||| '\u{2000}' <= c <= '\u{200a}'
    ||| c == '\u{2028}'
    ||| c == '\u{2029}'
    ||| c == '\u{202f}'
    ||| c == '\u{205f}'
    ||| c == '\u{3000}'
}

/// Whether `c` has the Unicode `White_Space` property.
pub fn is_white_space(c: char) -> (r: bool)
    ensures
        r == white_space(c),
{
    ('\u{9}' <= c && c <= '\u{d}') || c == ' ' || c == '\u{85}' || c == '\u{a0}' || c == '\u{1680}'
        || ('\u{2000}' <= c && c <= '\u{200a}') || c == '\u{2028}' || c == '\u{2029}' || c
        == '\u{202f}' || c == '\u{205f}' || c == '\u{3000}'
}

/// Text that holds nothing but white space.
pub open spec fn blank(s: Seq<char>) -> bool {
    forall|i: int| 0 <= i < s.len() ==> white_space(#[trigger] s[i])
}

/// `s` without its leading white space.
pub open spec fn trimmed_start(s: Seq<char>) -> Seq<char>
    decreases s.len(),
{
    if s.len() > 0 && white_space(s.first()) {
        trimmed_start(s.skip(1))
    } else {
        s
    }
}

/// `s` without its trailing white space.
pub open spec fn trimmed_end(s: Seq<char>) -> Seq<char>
    decreases s.len(),
{
    if s.len() > 0 && white_space(s.last()) {
        trimmed_end(s.drop_last())
    } else {
        s
    }
}

/// `s` without its leading and trailing white space.
pub open spec fn trimmed(s: Seq<char>) -> Seq<char> {
    trimmed_end(trimmed_start(s))
}

/// How many characters `s` holds before its first newline.
pub open spec fn line_len(s: Seq<char>) -> nat
    decreases s.len(),
{
    if s.len() == 0 || s.first() == '\n' {
        0
    } else {
        1 + line_len(s.skip(1))
    }
}

/// A line that a newline ended, without the carriage return before it.
pub open spec fn without_return(line: Seq<char>) -> Seq<char> {
    if line.len() > 0 && line.last() == '\r' {
        line.drop_last()
    } else {
        line
    }
}

/// The lines of `s`, each without its line ending: a newline, or a carriage
/// return and a newline. The last line needs no ending.
pub open spec fn lines_of(s: Seq<char>) -> Seq<Seq<char>>
    decreases s.len(),
{
    if s.len() == 0 {
        seq![]
    } else if line_len(s) < s.len() {
        seq![without_return(s.take(line_len(s) as int))] + lines_of(
            s.skip(line_len(s) as int + 1),
        )
    } else {
        seq![s]
    }
}

/// The texts that a list of strings holds.
pub open spec fn texts(list: Seq<String>) -> Seq<Seq<char>> {
    list.map_values(|t: String| t@)
}

/// The characters of `s`.
pub fn chars_of(s: &str) -> (r: Vec<char>)
    ensures
        r@ == s@,
{
    let mut r: Vec<char> = Vec::new();
    for c in it: s.chars()
        invariant
            it.seq() == s@,
            r@ == s@.take(it.index() as int),
    {
        r.push(c);
    }
    r
}

/// Counting stops at the first newline.
proof fn lemma_line_len(s: Seq<char>, n: int)
    requires
        0 <= n <= s.len(),
        forall|k: int| 0 <= k < n ==> #[trigger] s[k] != '\n',
        n < s.len() ==> s[n] == '\n',
    ensures
        line_len(s) == n,
    decreases n,
{
    if n > 0 {
        assert(s.first() == s[0]);
        assert forall|k: int| 0 <= k < n - 1 implies #[trigger] s.skip(1)[k] != '\n' by {
            assert(s.skip(1)[k] == s[k + 1]);
        }
        lemma_line_len(s.skip(1), n - 1);
    }
}

/// The lines of `s`, each without its line ending.
pub fn lines(s: &str) -> (r: Vec<String>)
    ensures
        texts(r@) == lines_of(s@),
{
    let cs = chars_of(s);
    let n: usize = cs.len();
    let mut r: Vec<String> = Vec::new();
    let mut start: usize = 0;
    let mut i: usize = 0;
    assert(s@.skip(0) =~= s@);
    while i < n
        invariant
            cs@ == s@,
            n == cs.len(),
            start <= i <= n,
            forall|k: int| start <= k < i ==> #[trigger] cs@[k] != '\n',
            texts(r@) + lines_of(s@.skip(start as int)) =~= lines_of(s@),
        decreases n - i,
    {
        if cs[i] == '\n' {
            let ghost rest = s@.skip(start as int);
            let ghost before = texts(r@);
            let end: usize = if i > start && cs[i - 1] == '\r' {
                i - 1
            } else {
                i
            };
            let line = s.substring_char(start, end).to_owned();
            proof {
                assert(forall|k: int| 0 <= k < i - start ==> #[trigger] rest[k] == cs@[start + k]);
                lemma_line_len(rest, i - start);
                assert(line@ =~= without_return(rest.take(i - start)));
                assert(rest.skip(i - start + 1) =~= s@.skip(i + 1));
            }
            r.push(line);
            assert(texts(r@) =~= before.push(without_return(rest.take(i - start))));
            start = i + 1;
        }
        i = i + 1;
    }
    if start < n {
        let ghost rest = s@.skip(start as int);
        let ghost before = texts(r@);
        let line = s.substring_char(start, n).to_owned();
        proof {
            assert(forall|k: int| 0 <= k < n - start ==> #[trigger] rest[k] == cs@[start + k]);
            lemma_line_len(rest, n - start);
            assert(line@ =~= rest);
        }
        r.push(line);
        assert(texts(r@) =~= before.push(rest));
    }
    r
}

/// A text that holds a newline counts the same with more text behind it.
proof fn lemma_line_len_before_newline(s: Seq<char>, more: Seq<char>)
    requires
        s.len() > 0,
        s.last() == '\n',
    ensures
        line_len(s) < s.len(),
        line_len(s + more) == line_len(s),
    decreases s.len(),
{
    assert((s + more).first() == s.first());
    if s.first() != '\n' {
        assert(s.len() > 1);
        assert(s.skip(1).last() == s.last());
        assert((s + more).skip(1) =~= s.skip(1) + more);
        lemma_line_len_before_newline(s.skip(1), more);
    }
}

/// Text behind a line ending adds its own lines and changes none before it.
pub proof fn law_lines_of_appended_text(s: Seq<char>, more: Seq<char>)
    requires
        s.len() > 0 ==> s.last() == '\n',
    ensures
        lines_of(s + more) == lines_of(s) + lines_of(more),
    decreases s.len(),
{
    if s.len() == 0 {
        assert(s + more =~= more);
        assert(lines_of(s) + lines_of(more) =~= lines_of(more));
    } else {
        lemma_line_len_before_newline(s, more);
        let n = line_len(s) as int;
        let rest = s.skip(n + 1);
        assert((s + more).take(n) =~= s.take(n));
        assert((s + more).skip(n + 1) =~= rest + more);
        assert(rest.len() > 0 ==> rest.last() == s.last());
        law_lines_of_appended_text(rest, more);
        assert(lines_of(s + more) =~= lines_of(s) + lines_of(more));
    }
}

/// A text without a newline is one line, with or without a newline behind it.
pub proof fn lemma_lines_of_one_line(line: Seq<char>)
    requires
        line.len() > 0,
        !line.contains('\n'),
    ensures
        lines_of(line) == seq![line],
        lines_of(line.push('\n')) == seq![without_return(line)],
{
    let ended = line.push('\n');
    assert forall|k: int| 0 <= k < line.len() implies #[trigger] line[k] != '\n' by {
        assert(line.contains(line[k]));
    }
    lemma_line_len(line, line.len() as int);
    assert forall|k: int| 0 <= k < line.len() implies #[trigger] ended[k] != '\n' by {
        assert(ended[k] == line[k]);
    }
    lemma_line_len(ended, line.len() as int);
    assert(ended.take(line.len() as int) =~= line);
    let rest = ended.skip(line.len() as int + 1);
    assert(rest.len() == 0 && lines_of(rest) =~= seq![]);
    assert(lines_of(ended) =~= seq![without_return(line)]);
}

/// A line holds no newline.
pub proof fn law_lines_hold_no_newline(s: Seq<char>, i: int)
    requires
        0 <= i < lines_of(s).len(),
    ensures
        !lines_of(s)[i].contains('\n'),
    decreases s.len(),
{
    lemma_no_newline_before(s);
    let n = line_len(s) as int;
    if n < s.len() {
        if i == 0 {
            let line = without_return(s.take(n));
            assert(lines_of(s)[0] == line);
            assert forall|k: int| 0 <= k < line.len() implies #[trigger] line[k] != '\n' by {
                assert(line[k] == s[k]);
            }
        } else {
            law_lines_hold_no_newline(s.skip(n + 1), i - 1);
        }
    } else {
        assert(lines_of(s)[0] == s);
    }
}

/// No newline comes before the first one.
proof fn lemma_no_newline_before(s: Seq<char>)
    ensures
        line_len(s) <= s.len(),
        forall|k: int| 0 <= k < line_len(s) ==> #[trigger] s[k] != '\n',
    decreases s.len(),
{
    if s.len() > 0 && s.first() != '\n' {
        lemma_no_newline_before(s.skip(1));
        assert forall|k: int| 0 <= k < line_len(s) implies #[trigger] s[k] != '\n' by {
            if k > 0 {
                assert(s[k] == s.skip(1)[k - 1]);
            }
        }
    }
}

/// Whether `s` holds nothing but white space.
pub fn is_blank(s: &str) -> (r: bool)
    ensures
        r == blank(s@),
{
    let cs = chars_of(s);
    let mut i: usize = 0;
    while i < cs.len()
        invariant
            cs@ == s@,
            i <= cs.len(),
            forall|k: int| 0 <= k < i ==> white_space(#[trigger] s@[k]),
        decreases cs.len() - i,
    {
        if !is_white_space(cs[i]) {
            assert(!white_space(s@[i as int]));
            return false;
        }
        i = i + 1;
    }
    true
}

/// Dropping leading white space stops at the first other character.
proof fn lemma_trimmed_start(s: Seq<char>, n: int)
    requires
        0 <= n <= s.len(),
        forall|k: int| 0 <= k < n ==> white_space(#[trigger] s[k]),
        n < s.len() ==> !white_space(s[n]),
    ensures
        trimmed_start(s) == s.skip(n),
    decreases n,
{
    if n > 0 {
        assert(s.first() == s[0]);
        assert forall|k: int| 0 <= k < n - 1 implies white_space(#[trigger] s.skip(1)[k]) by {
            assert(s.skip(1)[k] == s[k + 1]);
        }
        lemma_trimmed_start(s.skip(1), n - 1);
        assert(s.skip(1).skip(n - 1) =~= s.skip(n));
    } else {
        assert(s.skip(0) =~= s);
    }
}

/// Dropping trailing white space stops at the last other character.
proof fn lemma_trimmed_end(s: Seq<char>, n: int)
    requires
        0 <= n <= s.len(),
        forall|k: int| n <= k < s.len() ==> white_space(#[trigger] s[k]),
        n > 0 ==> !white_space(s[n - 1]),
    ensures
        trimmed_end(s) == s.take(n),
    decreases s.len() - n,
{
    if n < s.len() {
        assert(white_space(s[s.len() - 1]));
        assert forall|k: int| n <= k < s.len() - 1 implies white_space(
            #[trigger] s.drop_last()[k],
        ) by {
            assert(s.drop_last()[k] == s[k]);
        }
        lemma_trimmed_end(s.drop_last(), n);
        assert(s.drop_last().take(n) =~= s.take(n));
    } else {
        assert(s.take(n) =~= s);
    }
}

/// `s` without its leading and trailing white space.
pub fn trim(s: &str) -> (r: &str)
    ensures
        r@ == trimmed(s@),
{
    let cs = chars_of(s);
    let n: usize = cs.len();
    let mut from: usize = 0;
    while from < n && is_white_space(cs[from])
        invariant
            cs@ == s@,
            n == cs.len(),
            from <= n,
            forall|k: int| 0 <= k < from ==> white_space(#[trigger] s@[k]),
        decreases n - from,
    {
        from = from + 1;
    }
    let mut to: usize = n;
    while to > from && is_white_space(cs[to - 1])
        invariant
            cs@ == s@,
            n == cs.len(),
            from <= to <= n,
            forall|k: int| to <= k < n ==> white_space(#[trigger] s@[k]),
        decreases to - from,
    {
        to = to - 1;
    }
    proof {
        let rest = s@.skip(from as int);
        lemma_trimmed_start(s@, from as int);
        assert forall|k: int| to - from <= k < rest.len() implies white_space(
            #[trigger] rest[k],
        ) by {
            assert(rest[k] == s@[from + k]);
        }
        lemma_trimmed_end(rest, to - from);
        assert(rest.take(to - from) =~= s@.subrange(from as int, to as int));
    }
    s.substring_char(from, to)
}

/// Trimming leaves nothing of a text exactly when the text is blank.
pub proof fn law_blank_trims_to_nothing(s: Seq<char>)
    ensures
        trimmed(s).len() == 0 <==> blank(s),
{
    lemma_blank_trimmed_start(s);
    lemma_blank_trimmed_end(trimmed_start(s));
}

proof fn lemma_blank_trimmed_start(s: Seq<char>)
    ensures
        blank(trimmed_start(s)) == blank(s),
    decreases s.len(),
{
    if s.len() > 0 && white_space(s.first()) {
        lemma_blank_trimmed_start(s.skip(1));
        if blank(s.skip(1)) {
            assert forall|i: int| 0 <= i < s.len() implies white_space(#[trigger] s[i]) by {
                if i > 0 {
                    assert(white_space(s.skip(1)[i - 1]));
                }
            }
        }
        if blank(s) {
            assert forall|i: int| 0 <= i < s.skip(1).len() implies white_space(
                #[trigger] s.skip(1)[i],
            ) by {
                assert(white_space(s[i + 1]));
            }
        }
    }
}

proof fn lemma_blank_trimmed_end(s: Seq<char>)
    ensures
        (trimmed_end(s).len() == 0) == blank(s),
    decreases s.len(),
{
    if s.len() > 0 && white_space(s.last()) {
        lemma_blank_trimmed_end(s.drop_last());
        if blank(s.drop_last()) {
            assert forall|i: int| 0 <= i < s.len() implies white_space(#[trigger] s[i]) by {
                if i < s.len() - 1 {
                    assert(white_space(s.drop_last()[i]));
                }
            }
        }
        if blank(s) {
            assert forall|i: int| 0 <= i < s.drop_last().len() implies white_space(
                #[trigger] s.drop_last()[i],
            ) by {
                assert(white_space(s[i]));
            }
        }
    } else if s.len() > 0 {
        assert(!white_space(s[s.len() - 1]));
    }
}

/// Whether two texts are the same.
pub fn same_text(a: &str, b: &str) -> (r: bool)
    ensures
        r == (a@ == b@),
{
    a.to_owned() == b.to_owned()
}

/// What is left of `s` before `suffix`, where `s` ends in it.
pub open spec fn stripped(s: Seq<char>, suffix: Seq<char>) -> Option<Seq<char>> {
    if suffix.len() <= s.len() && s.skip(s.len() - suffix.len()) == suffix {
        Some(s.take(s.len() - suffix.len()))
    } else {
        None
    }
}

/// What is left of `s` before `suffix`, where `s` ends in it.
pub fn strip_suffix<'a>(s: &'a str, suffix: &str) -> (r: Option<&'a str>)
    ensures
        match r {
            Some(rest) => stripped(s@, suffix@) == Some(rest@),
            None => stripped(s@, suffix@) is None,
        },
{
    let n: usize = s.unicode_len();
    let m: usize = suffix.unicode_len();
    if m > n {
        return None;
    }
    let tail = s.substring_char(n - m, n);
    assert(tail@ =~= s@.skip(n - m));
    if same_text(tail, suffix) {
        let rest = s.substring_char(0, n - m);
        assert(rest@ =~= s@.take(n - m));
        Some(rest)
    } else {
        None
    }
}

/// The digit `d`, for `d` below ten.
pub open spec fn digit(d: nat) -> Seq<char> {
    if d == 0 {
        "0"@
    } else if d == 1 {
        "1"@
    } else if d == 2 {
        "2"@
    } else if d == 3 {
        "3"@
    } else if d == 4 {
        "4"@
    } else if d == 5 {
        "5"@
    } else if d == 6 {
        "6"@
    } else if d == 7 {
        "7"@
    } else if d == 8 {
        "8"@
    } else {
        "9"@
    }
}

/// The decimal digits of `n`.
pub open spec fn digits_of(n: nat) -> Seq<char>
    decreases n,
{
    if n < 10 {
        digit(n)
    } else {
        digits_of(n / 10) + digit(n % 10)
    }
}

/// The decimal form of `n`, with a leading `-` where it is negative.
pub open spec fn decimal_of(n: int) -> Seq<char> {
    if n < 0 {
        "-"@ + digits_of((-n) as nat)
    } else {
        digits_of(n as nat)
    }
}

/// A decimal form holds digits alone behind its sign, and at least one.
pub proof fn law_decimal_is_sign_and_digits(n: int)
    ensures
        decimal_of(n).len() > 0,
        forall|k: int|
            0 <= k < decimal_of(n).len() ==> '0' <= #[trigger] decimal_of(n)[k] <= '9' || (k == 0
                && n < 0 && decimal_of(n)[k] == '-'),
{
    if n < 0 {
        reveal_strlit("-");
        lemma_digits((-n) as nat);
        assert forall|k: int| 0 <= k < decimal_of(n).len() implies '0' <= #[trigger] decimal_of(
            n,
        )[k] <= '9' || (k == 0 && n < 0 && decimal_of(n)[k] == '-') by {
            if k > 0 {
                assert(decimal_of(n)[k] == digits_of((-n) as nat)[k - 1]);
            }
        }
    } else {
        lemma_digits(n as nat);
    }
}

proof fn lemma_digits(n: nat)
    ensures
        digits_of(n).len() > 0,
        forall|k: int| 0 <= k < digits_of(n).len() ==> '0' <= #[trigger] digits_of(n)[k] <= '9',
    decreases n,
{
    lemma_digit(n % 10);
    if n < 10 {
        assert(n % 10 == n);
    } else {
        lemma_digits(n / 10);
        let front = digits_of(n / 10);
        assert forall|k: int| 0 <= k < digits_of(n).len() implies '0' <= #[trigger] digits_of(n)[k]
            <= '9' by {
            if k < front.len() {
                assert(digits_of(n)[k] == front[k]);
            } else {
                assert(digits_of(n)[k] == digit(n % 10)[k - front.len()]);
            }
        }
    }
}

proof fn lemma_digit(d: nat)
    ensures
        digit(d).len() == 1,
        '0' <= digit(d)[0] <= '9',
{
    reveal_strlit("0");
    reveal_strlit("1");
    reveal_strlit("2");
    reveal_strlit("3");
    reveal_strlit("4");
    reveal_strlit("5");
    reveal_strlit("6");
    reveal_strlit("7");
    reveal_strlit("8");
    reveal_strlit("9");
}

/// `part` stands in `s` from position `i` on.
pub open spec fn occurs_at(s: Seq<char>, part: Seq<char>, i: int) -> bool {
    0 <= i <= i + part.len() <= s.len() && s.subrange(i, i + part.len()) == part
}

fn digit_text(d: u64) -> (r: &'static str)
    requires
        d < 10,
    ensures
        r@ == digit(d as nat),
{
    match d {
        0 => "0",
        1 => "1",
        2 => "2",
        3 => "3",
        4 => "4",
        5 => "5",
        6 => "6",
        7 => "7",
        8 => "8",
        _ => "9",
    }
}

fn digits(n: u64) -> (r: String)
    ensures
        r@ == digits_of(n as nat),
    decreases n,
{
    if n < 10 {
        digit_text(n).to_owned()
    } else {
        let mut r = digits(n / 10);
        r.append(digit_text(n % 10));
        r
    }
}

/// The decimal form of an unsigned number.
pub fn decimal(n: usize) -> (r: String)
    ensures
        r@ == decimal_of(n as int),
{
    digits(n as u64)
}

/// The decimal form of a signed number.
pub fn signed_decimal(n: i64) -> (r: String)
    ensures
        r@ == decimal_of(n as int),
{
    if n < 0 {
        let mut r = "-".to_owned();
        let magnitude: u64 = (-(n as i128)) as u64;
        let tail = digits(magnitude);
        r.append(tail.as_str());
        r
    } else {
        digits(n as u64)
    }
}

/// The parts, one after the other, with `separator` between two of them.
pub open spec fn joined(parts: Seq<Seq<char>>, separator: Seq<char>) -> Seq<char>
    decreases parts.len(),
{
    if parts.len() == 0 {
        seq![]
    } else if parts.len() == 1 {
        parts[0]
    } else {
        joined(parts.drop_last(), separator) + separator + parts.last()
    }
}

/// The parts, one after the other, with `separator` between two of them.
pub fn join(parts: &Vec<String>, separator: &str) -> (r: String)
    ensures
        r@ == joined(texts(parts@), separator@),
{
    let mut r = String::new();
    let mut i: usize = 0;
    while i < parts.len()
        invariant
            i <= parts.len(),
            r@ == joined(texts(parts@).take(i as int), separator@),
        decreases parts.len() - i,
    {
        if i > 0 {
            r.append(separator);
        }
        r.append(parts[i].as_str());
        proof {
            let next = texts(parts@).take(i + 1);
            assert(next.drop_last() =~= texts(parts@).take(i as int));
            assert(next.last() == parts@[i as int]@);
            if i == 0 {
                assert(next[0] == parts@[0]@);
            }
        }
        i = i + 1;
    }
    assert(texts(parts@).take(i as int) =~= texts(parts@));
    r
}

/// The text that `String::from_utf8_lossy` makes of `bytes`.
pub uninterp spec fn lossy_text(bytes: Seq<u8>) -> Seq<char>;

/// `String::from_utf8_lossy` of std: the bytes decoded as UTF-8, each sequence in
/// them that is none replaced by U+FFFD. Claimed of it is that the text depends
/// on the bytes alone, and that bytes that are UTF-8 are decoded as they are;
/// which sequences are replaced in other bytes is left unsaid.
#[verifier::external_body]
pub(crate) fn decode_lossy(bytes: &[u8]) -> (r: String)
    ensures
        r@ == lossy_text(bytes@),
        vstd::utf8::valid_utf8(bytes@) ==> r@ == vstd::utf8::decode_utf8(bytes@),
{
    String::from_utf8_lossy(bytes).into_owned()
}

/// Where the leading white space of `s` ends.
proof fn lemma_trimmed_start_cuts(s: Seq<char>) -> (a: int)
    ensures
        0 <= a <= s.len(),
        trimmed_start(s) == s.skip(a),
        forall|k: int| 0 <= k < a ==> white_space(#[trigger] s[k]),
        a < s.len() ==> !white_space(s[a]),
    decreases s.len(),
{
    if s.len() > 0 && white_space(s.first()) {
        let b = lemma_trimmed_start_cuts(s.skip(1));
        assert(s.skip(1).skip(b) =~= s.skip(b + 1));
        assert forall|k: int| 0 <= k < b + 1 implies white_space(#[trigger] s[k]) by {
            if k > 0 {
                assert(s.skip(1)[k - 1] == s[k]);
            }
        }
        b + 1
    } else {
        assert(s.skip(0) =~= s);
        0
    }
}

/// Where the trailing white space of `s` begins.
proof fn lemma_trimmed_end_cuts(s: Seq<char>) -> (b: int)
    ensures
        0 <= b <= s.len(),
        trimmed_end(s) == s.take(b),
        forall|k: int| b <= k < s.len() ==> white_space(#[trigger] s[k]),
        b > 0 ==> !white_space(s[b - 1]),
    decreases s.len(),
{
    if s.len() > 0 && white_space(s.last()) {
        let init = s.drop_last();
        let b = lemma_trimmed_end_cuts(init);
        assert(init.take(b) =~= s.take(b));
        assert forall|k: int| b <= k < s.len() implies white_space(#[trigger] s[k]) by {
            if k < init.len() {
                assert(init[k] == s[k]);
            }
        }
        b
    } else {
        assert(s.take(s.len() as int) =~= s);
        s.len() as int
    }
}

/// White space is what Unicode lists under that property, by code point.
pub proof fn law_white_space_by_code_point(c: char, r: bool)
    requires
        call_ensures(is_white_space, (c,), r),
    ensures
        r == ({
            let n = c as u32;
            ||| 0x9 <= n <= 0xd
            ||| n == 0x20
            ||| n == 0x85
            ||| n == 0xa0
            ||| n == 0x1680
            ||| 0x2000 <= n <= 0x200a
            ||| n == 0x2028
            ||| n == 0x2029
            ||| n == 0x202f
            ||| n == 0x205f
            ||| n == 0x3000
        }),
        r == white_space(c),
{
}

/// Trimming cuts the white space off both ends of a text and nothing else: what
/// it cuts is white space, and what it leaves neither starts nor ends with any.
pub proof fn law_trimming_cuts_white_space_alone(s: &str, r: &str)
    requires
        call_ensures(trim, (s,), r),
    ensures
        exists|a: int, b: int|
            {
                &&& 0 <= a <= b <= s@.len()
                &&& r@ == #[trigger] s@.subrange(a, b)
                &&& forall|k: int| 0 <= k < a ==> white_space(#[trigger] s@[k])
                &&& forall|k: int| b <= k < s@.len() ==> white_space(#[trigger] s@[k])
                &&& a < b ==> !white_space(s@[a]) && !white_space(s@[b - 1])
            },
{
    let a = lemma_trimmed_start_cuts(s@);
    let rest = s@.skip(a);
    let n = lemma_trimmed_end_cuts(rest);
    let b = a + n;
    assert(rest.take(n) =~= s@.subrange(a, b));
    assert forall|k: int| b <= k < s@.len() implies white_space(#[trigger] s@[k]) by {
        assert(rest[k - a] == s@[k]);
    }
    if a < b {
        assert(rest[n - 1] == s@[b - 1]);
    }
    assert(r@ == s@.subrange(a, b));
}

/// A text is blank where trimming leaves nothing of it.
pub proof fn law_blank_text_is_trimmed_away(s: &str, r: bool, trimmed: &str)
    requires
        call_ensures(is_blank, (s,), r),
        call_ensures(trim, (s,), trimmed),
    ensures
        r <==> trimmed@.len() == 0,
{
    law_blank_trims_to_nothing(s@);
}

/// What `lines` gives is put together line by line: no text has no lines, a text
/// behind a line ending adds its lines to those before it, and a text without a
/// newline is one line, with or without a line ending behind it.
pub proof fn law_lines_are_split_at_newlines(
    s: &str,
    more: &str,
    both: &str,
    r: Vec<String>,
    q: Vec<String>,
    all: Vec<String>,
)
    requires
        call_ensures(lines, (s,), r),
        call_ensures(lines, (more,), q),
        call_ensures(lines, (both,), all),
        both@ == s@ + more@,
    ensures
        s@.len() == 0 ==> texts(r@) == Seq::<Seq<char>>::empty(),
        s@.len() > 0 && s@.last() == '\n' ==> texts(all@) == texts(r@) + texts(q@),
        s@.len() > 0 && !s@.contains('\n') ==> texts(r@) == seq![s@],
        s@.len() > 0 && !s@.contains('\n') && more@ == "\n"@ ==> texts(all@) == seq![
            if s@.last() == '\r' {
                s@.drop_last()
            } else {
                s@
            },
        ],
        s@ == "\n"@ ==> texts(r@) == seq![Seq::<char>::empty()],
        s@ == "\r\n"@ ==> texts(r@) == seq![Seq::<char>::empty()],
{
    reveal_strlit("\n");
    reveal_strlit("\r\n");
    if s@.len() > 0 && s@.last() == '\n' {
        law_lines_of_appended_text(s@, more@);
    }
    if s@.len() > 0 && !s@.contains('\n') {
        lemma_lines_of_one_line(s@);
        if more@ == "\n"@ {
            assert(s@ + more@ =~= s@.push('\n'));
        }
    }
    if s@ == "\n"@ {
        assert(line_len(s@) == 0);
        assert(s@.take(0) =~= Seq::<char>::empty());
        assert(lines_of(s@.skip(1)) =~= seq![]);
        assert(lines_of(s@) =~= seq![Seq::<char>::empty()]);
    }
    if s@ == "\r\n"@ {
        let line = seq!['\r'];
        assert(s@ =~= line.push('\n'));
        lemma_lines_of_one_line(line);
        assert(line.drop_last() =~= Seq::<char>::empty());
    }
}

/// A suffix is cut off exactly where the text ends in it, and what is left is
/// the text before it.
pub proof fn law_stripped_text_and_suffix_make_the_text(
    s: &str,
    suffix: &str,
    r: Option<&str>,
    front: Seq<char>,
)
    requires
        call_ensures(strip_suffix, (s, suffix), r),
    ensures
        r matches Some(rest) ==> s@ == rest@ + suffix@,
        s@ == front + suffix@ ==> r is Some && (r->0)@ == front,
{
    if let Some(rest) = r {
        assert(s@ =~= rest@ + suffix@);
    }
    if s@ == front + suffix@ {
        assert(s@.skip(s@.len() - suffix@.len()) =~= suffix@);
        assert(s@.take(s@.len() - suffix@.len()) =~= front);
    }
}

/// Joining puts the separator between two parts and nowhere else: nothing comes
/// of no parts, one part is as it is, and one more part comes behind the others
/// and a separator.
pub proof fn law_joined_parts_are_separated(
    parts: Vec<String>,
    init: Vec<String>,
    separator: &str,
    r: String,
    q: String,
)
    requires
        call_ensures(join, (&parts, separator), r),
        call_ensures(join, (&init, separator), q),
        parts.len() > 0 ==> texts(init@) == texts(parts@).drop_last(),
    ensures
        parts.len() == 0 ==> r@.len() == 0,
        parts.len() == 1 ==> r@ == parts[0]@,
        parts.len() > 1 ==> r@ == q@ + separator@ + parts@.last()@,
{
    if parts.len() > 0 {
        assert(texts(parts@).last() == parts@.last()@);
        assert(texts(parts@)[0] == parts@[0]@);
    }
}

/// A digit is its code point's distance from `0`.
proof fn lemma_digit_code(d: nat)
    requires
        d < 10,
    ensures
        digit(d) == seq![(48 + d) as char],
{
    reveal_strlit("0");
    reveal_strlit("1");
    reveal_strlit("2");
    reveal_strlit("3");
    reveal_strlit("4");
    reveal_strlit("5");
    reveal_strlit("6");
    reveal_strlit("7");
    reveal_strlit("8");
    reveal_strlit("9");
    lemma_digit(d);
    assert(digit(d) =~= seq![(48 + d) as char]);
}

/// A number is written digit by digit in base ten: a number below ten is the
/// digit that many places past `0`, and a larger one is its tenth followed by
/// the digit that is left. A negative number is its magnitude behind a `-`.
pub proof fn law_decimal_is_base_ten(n: usize, r: String, tenth: String, i: i64, signed: String)
    requires
        call_ensures(decimal, (n,), r),
        call_ensures(decimal, ((n / 10) as usize,), tenth),
        call_ensures(signed_decimal, (i,), signed),
    ensures
        n < 10 ==> r@ == seq![(48 + n) as char],
        n >= 10 ==> r@ == tenth@.push((48 + n % 10) as char),
        i == n ==> signed@ == r@,
        i < 0 && -i == n ==> signed@ == "-"@ + r@,
{
    let rest = (n % 10) as nat;
    lemma_digit_code(rest);
    if n >= 10 {
        assert(r@ =~= tenth@.push((48 + n % 10) as char));
    }
}

} // verus!
