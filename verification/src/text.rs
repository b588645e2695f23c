//! Character classes and string helpers shared by the validators.
//!
//! Every helper is stated over `Seq<char>`, the view of `str` and `String`.
use vstd::prelude::*;

verus! {

/// Unicode `White_Space`: the characters that `str::trim` removes.
pub open spec fn is_whitespace(c: char) -> bool {
    let u = c as u32;
    ||| u == 0x20
    ||| (0x09 <= u && u <= 0x0d)
    ||| u == 0x85
    ||| u == 0xa0
    ||| u == 0x1680
    ||| (0x2000 <= u && u <= 0x200a)
    ||| u == 0x2028
    ||| u == 0x2029
    ||| u == 0x202f
    ||| u == 0x205f
    ||| u == 0x3000
}

/// Unicode general category `Cc` (the characters `char::is_control` accepts).
pub open spec fn is_control(c: char) -> bool {
    let u = c as u32;
    u <= 0x1f || (0x7f <= u && u <= 0x9f)
}

/// `0-9`, `a-z`, `A-Z`.
pub open spec fn is_ascii_alphanumeric(c: char) -> bool {
    let u = c as u32;
    ||| (0x30 <= u && u <= 0x39)
    ||| (0x41 <= u && u <= 0x5a)
    ||| (0x61 <= u && u <= 0x7a)
}

/// Characters that Windows does not accept in a path.
pub open spec fn is_windows_reserved(c: char) -> bool {
    c == '<' || c == '>' || c == '"' || c == '|' || c == '?' || c == '*'
}

/// Characters that a shell would give a meaning to, and control characters.
pub open spec fn is_shell_meta(c: char) -> bool {
    ||| is_control(c)
    ||| c == '&' || c == '|' || c == ';' || c == '$' || c == '`'
    ||| c == '<' || c == '>' || c == '"' || c == '\''
}

/// A class of characters that the validators search for.
#[derive(Clone, Copy, Debug, PartialEq, Eq)]
pub enum CharClass {
    Control,
    WindowsReserved,
    ShellMeta,
    Comma,
    Whitespace,
}

pub open spec fn in_class(c: char, class: CharClass) -> bool {
    match class {
        CharClass::Control => c == '\0' || is_control(c),
        CharClass::WindowsReserved => is_windows_reserved(c),
        CharClass::ShellMeta => is_shell_meta(c),
        CharClass::Comma => c == ',',
        CharClass::Whitespace => is_whitespace(c),
    }
}

/// Some character of `s` belongs to `class`.
pub open spec fn has_char_in(s: Seq<char>, class: CharClass) -> bool {
    exists|i: int| 0 <= i < s.len() && #[trigger] in_class(s[i], class)
}

/// `s` without its leading whitespace.
pub open spec fn trim_start(s: Seq<char>) -> Seq<char>
    decreases s.len(),
{
    if s.len() > 0 && is_whitespace(s[0]) {
        trim_start(s.drop_first())
    } else {
        s
    }
}

/// `s` without its trailing whitespace.
pub open spec fn trim_end(s: Seq<char>) -> Seq<char>
    decreases s.len(),
{
    if s.len() > 0 && is_whitespace(s.last()) {
        trim_end(s.drop_last())
    } else {
        s
    }
}

/// What `str::trim` returns.
pub open spec fn trimmed(s: Seq<char>) -> Seq<char> {
    trim_end(trim_start(s))
}

pub open spec fn all_whitespace(s: Seq<char>, lo: int, hi: int) -> bool {
    forall|k: int| lo <= k < hi ==> #[trigger] is_whitespace(s[k])
}

proof fn lemma_trim_start_at(s: Seq<char>, i: int)
    requires
        0 <= i <= s.len(),
        all_whitespace(s, 0, i),
        i == s.len() || !is_whitespace(s[i]),
    ensures
        trim_start(s) == s.subrange(i, s.len() as int),
    decreases i,
{
    if i == 0 {
        assert(s.subrange(0, s.len() as int) =~= s);
    } else {
        let t = s.drop_first();
        assert forall|k: int| 0 <= k < i - 1 implies #[trigger] is_whitespace(t[k]) by {
            assert(is_whitespace(s[k + 1]));
        }
        lemma_trim_start_at(t, i - 1);
        assert(t.subrange(i - 1, t.len() as int) =~= s.subrange(i, s.len() as int));
    }
}

proof fn lemma_trim_end_at(s: Seq<char>, j: int)
    requires
        0 <= j <= s.len(),
        all_whitespace(s, j, s.len() as int),
        j == 0 || !is_whitespace(s[j - 1]),
    ensures
        trim_end(s) == s.subrange(0, j),
    decreases s.len() - j,
{
    if j == s.len() {
        assert(s.subrange(0, j) =~= s);
    } else {
        let t = s.drop_last();
        assert forall|k: int| j <= k < t.len() implies #[trigger] is_whitespace(t[k]) by {
            assert(is_whitespace(s[k]));
        }
        assert(is_whitespace(s.last()));
        lemma_trim_end_at(t, j);
        assert(t.subrange(0, j) =~= s.subrange(0, j));
    }
}

proof fn lemma_trim_start_ws(s: Seq<char>) -> (a: int)
    ensures
        0 <= a <= s.len(),
        trim_start(s) == s.subrange(a, s.len() as int),
        all_whitespace(s, 0, a),
    decreases s.len(),
{
    if s.len() > 0 && is_whitespace(s[0]) {
        let t = s.drop_first();
        let a = lemma_trim_start_ws(t);
        assert(t.subrange(a, t.len() as int) =~= s.subrange(a + 1, s.len() as int));
        assert forall|k: int| 0 <= k < a + 1 implies #[trigger] is_whitespace(s[k]) by {
            if k > 0 {
                assert(s[k] == t[k - 1]);
            }
        }
        a + 1
    } else {
        assert(s.subrange(0, s.len() as int) =~= s);
        0
    }
}

proof fn lemma_trim_end_ws(s: Seq<char>) -> (b: int)
    ensures
        0 <= b <= s.len(),
        trim_end(s) == s.subrange(0, b),
        all_whitespace(s, b, s.len() as int),
    decreases s.len(),
{
    if s.len() > 0 && is_whitespace(s.last()) {
        let t = s.drop_last();
        let b = lemma_trim_end_ws(t);
        assert(t.subrange(0, b) =~= s.subrange(0, b));
        assert forall|k: int| b <= k < s.len() implies #[trigger] is_whitespace(s[k]) by {
            if k < s.len() - 1 {
                assert(s[k] == t[k]);
            }
        }
        b
    } else {
        assert(s.subrange(0, s.len() as int) =~= s);
        s.len() as int
    }
}

/// The trim of `s` is a slice `s[a..b]` with only whitespace before `a` and after `b`.
pub proof fn lemma_trimmed_slice(s: Seq<char>) -> (ab: (int, int))
    ensures
        0 <= ab.0 <= ab.1 <= s.len(),
        trimmed(s) == s.subrange(ab.0, ab.1),
        all_whitespace(s, 0, ab.0),
        all_whitespace(s, ab.1, s.len() as int),
{
    let a = lemma_trim_start_ws(s);
    let t = s.subrange(a, s.len() as int);
    let b = lemma_trim_end_ws(t);
    assert(t.subrange(0, b) =~= s.subrange(a, a + b));
    assert forall|k: int| a + b <= k < s.len() implies #[trigger] is_whitespace(s[k]) by {
        assert(s[k] == t[k - a]);
    }
    (a, a + b)
}

/// A string that neither starts nor ends with whitespace is its own trim.
pub proof fn lemma_trimmed_unchanged(s: Seq<char>)
    requires
        s.len() > 0,
        !is_whitespace(s[0]),
        !is_whitespace(s.last()),
    ensures
        trimmed(s) == s,
{
}

/// `trim` of a `str`: leading and trailing Unicode whitespace removed.
pub fn trim(s: &str) -> (r: &str)
    ensures
        r@ == trimmed(s@),
{
    let n = s.unicode_len();
    let mut i: usize = 0;
    while i < n
        invariant
            n == s@.len(),
            i <= n,
            all_whitespace(s@, 0, i as int),
        ensures
            i == n || !is_whitespace(s@[i as int]),
        decreases n - i,
    {
        let c = s.get_char(i);
        if !is_whitespace_char(c) {
            break;
        }
        i = i + 1;
    }
    proof {
        lemma_trim_start_at(s@, i as int);
    }
    let ghost head = s@.subrange(i as int, n as int);
    let mut j: usize = n;
    while j > i
        invariant
            n == s@.len(),
            i <= j <= n,
            all_whitespace(s@, j as int, n as int),
            head == s@.subrange(i as int, n as int),
        ensures
            j == i || !is_whitespace(s@[j - 1]),
        decreases j,
    {
        let c = s.get_char(j - 1);
        if !is_whitespace_char(c) {
            break;
        }
        j = j - 1;
    }
    proof {
        assert forall|k: int| j - i <= k < head.len() implies #[trigger] is_whitespace(head[k]) by {
            assert(head[k] == s@[k + i]);
        }
        if j > i {
            assert(head[j - i - 1] == s@[j - 1]);
        }
        lemma_trim_end_at(head, j - i);
        assert(head.subrange(0, j - i) =~= s@.subrange(i as int, j as int));
    }
    s.substring_char(i, j)
}

/// `char::is_whitespace`.
pub fn is_whitespace_char(c: char) -> (b: bool)
    ensures
        b == is_whitespace(c),
{
    let u = c as u32;
    u == 0x20 || (0x09 <= u && u <= 0x0d) || u == 0x85 || u == 0xa0 || u == 0x1680 || (0x2000
        <= u && u <= 0x200a) || u == 0x2028 || u == 0x2029 || u == 0x202f || u == 0x205f || u
        == 0x3000
}

pub fn char_in_class(c: char, class: CharClass) -> (b: bool)
    ensures
        b == in_class(c, class),
{
    let u = c as u32;
    match class {
        CharClass::Control => u <= 0x1f || (0x7f <= u && u <= 0x9f),
        CharClass::WindowsReserved => c == '<' || c == '>' || c == '"' || c == '|' || c == '?'
            || c == '*',
        CharClass::ShellMeta => u <= 0x1f || (0x7f <= u && u <= 0x9f) || c == '&' || c == '|'
            || c == ';' || c == '$' || c == '`' || c == '<' || c == '>' || c == '"' || c == '\'',
        CharClass::Comma => c == ',',
        CharClass::Whitespace => is_whitespace_char(c),
    }
}

/// Whether some character of `s` belongs to `class`.
pub fn contains_char_in(s: &str, class: CharClass) -> (b: bool)
    ensures
        b == has_char_in(s@, class),
{
    let n = s.unicode_len();
    let mut i: usize = 0;
    while i < n
        invariant
            n == s@.len(),
            i <= n,
            forall|k: int| 0 <= k < i ==> !#[trigger] in_class(s@[k], class),
        decreases n - i,
    {
        let c = s.get_char(i);
        if char_in_class(c, class) {
            assert(in_class(s@[i as int], class));
            return true;
        }
        i = i + 1;
    }
    false
}

/// Whether every character of `s` is an ASCII letter or digit, `-` or `_`.
pub open spec fn is_id_text(s: Seq<char>) -> bool {
    forall|i: int|
        0 <= i < s.len() ==> is_ascii_alphanumeric(#[trigger] s[i]) || s[i] == '-' || s[i] == '_'
}

pub fn all_id_chars(s: &str) -> (b: bool)
    ensures
        b == is_id_text(s@),
{
    let n = s.unicode_len();
    let mut i: usize = 0;
    while i < n
        invariant
            n == s@.len(),
            i <= n,
            forall|k: int|
                0 <= k < i ==> is_ascii_alphanumeric(#[trigger] s@[k]) || s@[k] == '-' || s@[k]
                    == '_',
        decreases n - i,
    {
        let c = s.get_char(i);
        let u = c as u32;
        let ok = (0x30 <= u && u <= 0x39) || (0x41 <= u && u <= 0x5a) || (0x61 <= u && u <= 0x7a)
            || c == '-' || c == '_';
        if !ok {
            assert(!(is_ascii_alphanumeric(s@[i as int]) || s@[i as int] == '-' || s@[i as int]
                == '_'));
            return false;
        }
        i = i + 1;
    }
    true
}

/// Whether `a` and `b` hold the same characters.
pub fn same_text(a: &str, b: &str) -> (r: bool)
    ensures
        r == (a@ == b@),
{
    let n = a.unicode_len();
    if n != b.unicode_len() {
        return false;
    }
    let mut i: usize = 0;
    while i < n
        invariant
            n == a@.len(),
            n == b@.len(),
            i <= n,
            forall|k: int| 0 <= k < i ==> a@[k] == b@[k],
        decreases n - i,
    {
        if a.get_char(i) != b.get_char(i) {
            return false;
        }
        i = i + 1;
    }
    assert(a@ =~= b@);
    true
}

/// An owned copy of `s`.
pub fn owned(s: &str) -> (r: String)
    ensures
        r@ == s@,
{
    String::from_str(s)
}

/// The decimal digit `d` as a character.
pub open spec fn digit_char(d: nat) -> char {
    if d == 0 {
        '0'
    } else if d == 1 {
        '1'
    } else if d == 2 {
        '2'
    } else if d == 3 {
        '3'
    } else if d == 4 {
        '4'
    } else if d == 5 {
        '5'
    } else if d == 6 {
        '6'
    } else if d == 7 {
        '7'
    } else if d == 8 {
        '8'
    } else {
        '9'
    }
}

/// The decimal representation of `n`, as `Display` writes it for unsigned integers.
pub open spec fn decimal(n: nat) -> Seq<char>
    decreases n,
{
    if n < 10 {
        seq![digit_char(n)]
    } else {
        decimal(n / 10).push(digit_char(n % 10))
    }
}

fn digit_text(d: u64) -> (s: &'static str)
    requires
        d < 10,
    ensures
        s@ == seq![digit_char(d as nat)],
{
    proof {
        reveal_strlit("0");
        reveal_strlit("1");
        reveal_strlit("2");
        reveal_strlit("3");
        reveal_strlit("4");
        reveal_strlit("5");
        reveal_strlit("6");
        reveal_strlit("7");
        reveal_strlit("8");
        reveal_strlit("9");
    }
    if d == 0 {
        "0"
    } else if d == 1 {
        "1"
    } else if d == 2 {
        "2"
    } else if d == 3 {
        "3"
    } else if d == 4 {
        "4"
    } else if d == 5 {
        "5"
    } else if d == 6 {
        "6"
    } else if d == 7 {
        "7"
    } else if d == 8 {
        "8"
    } else {
        "9"
    }
}

/// The decimal text of `n`.
pub fn decimal_string(n: u64) -> (s: String)
    ensures
        s@ == decimal(n as nat),
    decreases n,
{
    let last = digit_text(n % 10);
    if n < 10 {
        String::from_str(last)
    } else {
        let mut s = decimal_string(n / 10);
        s.append(last);
        s
    }
}


/// Every character of a decimal representation is a digit, and there is at least one.
pub proof fn lemma_decimal_digits(n: nat)
    ensures
        decimal(n).len() > 0,
        forall|i: int| 0 <= i < decimal(n).len() ==> '0' <= #[trigger] decimal(n)[i] <= '9',
    decreases n,
{
    if n >= 10 {
        lemma_decimal_digits(n / 10);
        let d = decimal(n / 10);
        assert forall|i: int| 0 <= i < decimal(n).len() implies '0' <= #[trigger] decimal(n)[i] <= '9' by {
            if i < d.len() {
                assert(decimal(n)[i] == d[i]);
            }
        }
    }
}

} // verus!
