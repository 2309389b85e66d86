//! Text that is put together from pieces.

use vstd::prelude::*;

verus! {

/// The decimal digit of a number below ten.
pub open spec fn digit(n: nat) -> char {
    (('0' as u32 + n) as u32) as char
}

/// The decimal notation of a number, without leading zeros.
pub open spec fn decimal(n: nat) -> Seq<char>
    decreases n,
{
    if n < 10 {
        seq![digit(n)]
    } else {
        decimal(n / 10).push(digit(n % 10))
    }
}

/// The hexadecimal digit of a number below sixteen, in lower case.
pub open spec fn hex_digit(n: nat) -> char {
    if n < 10 {
        digit(n)
    } else {
        (('a' as u32 + n - 10) as u32) as char
    }
}

/// The hexadecimal notation of a number, in lower case and without leading zeros.
pub open spec fn hexadecimal(n: nat) -> Seq<char>
    decreases n,
{
    if n < 16 {
        seq![hex_digit(n)]
    } else {
        hexadecimal(n / 16).push(hex_digit(n % 16))
    }
}

/// `format!` renders an unsigned integer in decimal notation, without leading zeros.
#[verifier::external_body]
pub(crate) fn decimal_string(n: u64) -> (r: String)
    ensures
        r@ == decimal(n as nat),
{
    format!("{}", n)
}

/// Renders an unsigned integer in hexadecimal notation, in lower case and without leading zeros.
pub fn hex_string(n: u64) -> (r: String)
    ensures
        r@ == hexadecimal(n as nat),
    decreases n,
{
    let mut text = if n < 16 {
        String::new()
    } else {
        hex_string(n / 16)
    };
    let ghost before = text@;
    text.append(hex_digit_text(n % 16));
    proof {
        if n < 16 {
            assert(before =~= Seq::<char>::empty());
        }
        assert(text@ =~= before.push(hex_digit((n % 16) as nat)));
    }
    text
}

/// The text of one hexadecimal digit.
fn hex_digit_text(n: u64) -> (r: &'static str)
    requires
        n < 16,
    ensures
        r@ == seq![hex_digit(n as nat)],
{
    let all = "0123456789abcdef";
    proof {
        reveal_strlit("0123456789abcdef");
    }
    let r = all.substring_char(n as usize, n as usize + 1);
    assert(r@ =~= seq![hex_digit(n as nat)]);
    r
}

/// `b` after `a`.
pub fn join2(a: &str, b: &str) -> (r: String)
    ensures
        r@ == a@ + b@,
{
    let mut r = String::from_str(a);
    r.append(b);
    r
}

/// The three pieces one after the other.
pub fn join3(a: &str, b: &str, c: &str) -> (r: String)
    ensures
        r@ == a@ + b@ + c@,
{
    let mut r = join2(a, b);
    r.append(c);
    r
}

/// Whether two pieces of text are the same.
pub fn same(a: &str, b: &str) -> (r: bool)
    ensures
        r == (a@ == b@),
{
    String::from_str(a) == String::from_str(b)
}

/// How JSON writes a character inside of a string.
pub open spec fn json_char(c: char) -> Seq<char> {
    if c == '"' {
        seq!['\\', '"']
    } else if c == '\\' {
        seq!['\\', '\\']
    } else if c as u32 == 8 {
        seq!['\\', 'b']
    } else if c as u32 == 9 {
        seq!['\\', 't']
    } else if c as u32 == 10 {
        seq!['\\', 'n']
    } else if c as u32 == 12 {
        seq!['\\', 'f']
    } else if c as u32 == 13 {
        seq!['\\', 'r']
    } else if (c as u32) < 32 {
        seq![
            '\\',
            'u',
            '0',
            '0',
            hex_digit((c as u32 / 16) as nat),
            hex_digit((c as u32 % 16) as nat),
        ]
    } else {
        seq![c]
    }
}

/// How JSON writes the characters of a string.
pub open spec fn json_chars(s: Seq<char>) -> Seq<char>
    decreases s.len(),
{
    if s.len() == 0 {
        seq![]
    } else {
        json_chars(s.drop_last()) + json_char(s.last())
    }
}

/// How JSON writes a string.
pub open spec fn json_string(s: Seq<char>) -> Seq<char> {
    seq!['"'] + json_chars(s) + seq!['"']
}

/// `serde_json::to_string` writes a string between double quotes. Double quotes, backslashes and
/// control characters are escaped, everything else stands as it is.
#[verifier::external_body]
pub(crate) fn json_text(s: &str) -> (r: String)
    ensures
        r@ == json_string(s@),
{
    serde_json::to_string(s).unwrap_or_default()
}

/// Whether a character is a letter or a number in the sense of Unicode.
pub uninterp spec fn alphanumeric(c: char) -> bool;

/// Whether a character of seven bits is a letter or a digit.
pub open spec fn ascii_alphanumeric(c: char) -> bool {
    ||| 'a' as u32 <= c as u32 <= 'z' as u32
    ||| 'A' as u32 <= c as u32 <= 'Z' as u32
    ||| '0' as u32 <= c as u32 <= '9' as u32
}

/// `char::is_alphanumeric` says whether a character is a letter or a number in the sense of
/// Unicode. Of the characters of seven bits these are the letters and the digits.
#[verifier::external_body]
pub(crate) fn is_alphanumeric(c: char) -> (r: bool)
    ensures
        r == alphanumeric(c),
        (c as u32) < 128 ==> r == ascii_alphanumeric(c),
{
    c.is_alphanumeric()
}

/// The text before the first slash.
pub open spec fn before_slash(s: Seq<char>) -> Seq<char>
    decreases s.len(),
{
    if s.len() == 0 || s[0] == '/' {
        seq![]
    } else {
        seq![s[0]] + before_slash(s.skip(1))
    }
}

/// The pieces of text between slashes. Nothing comes of the end of the text behind a slash.
pub open spec fn pieces(s: Seq<char>) -> Seq<Seq<char>>
    decreases s.len(),
{
    if s.len() == 0 {
        seq![]
    } else {
        let first = before_slash(s);
        if first.len() >= s.len() {
            seq![first]
        } else {
            seq![first] + pieces(s.skip(first.len() as int + 1))
        }
    }
}

/// Text without the slashes at its front.
pub open spec fn after_slashes(s: Seq<char>) -> Seq<char>
    decreases s.len(),
{
    if s.len() > 0 && s[0] == '/' {
        after_slashes(s.skip(1))
    } else {
        s
    }
}

/// What the pieces of a list of strings are.
pub open spec fn texts(v: Seq<String>) -> Seq<Seq<char>> {
    v.map_values(|s: String| s@)
}

proof fn lemma_before_slash(s: Seq<char>, n: int)
    requires
        0 <= n <= s.len(),
        forall|i: int| 0 <= i < n ==> #[trigger] s[i] != '/',
        n < s.len() ==> s[n] == '/',
    ensures
        before_slash(s) == s.take(n),
    decreases n,
{
    if n == 0 {
        assert(s.take(0) =~= Seq::<char>::empty());
    } else {
        let rest = s.skip(1);
        assert forall|i: int| 0 <= i < n - 1 implies #[trigger] rest[i] != '/' by {
            assert(s[i + 1] != '/');
        }
        lemma_before_slash(rest, n - 1);
        assert(s.take(n) =~= seq![s[0]] + rest.take(n - 1));
    }
}

/// Takes text apart at slashes, without those at its front.
pub fn split_path(path: &str) -> (r: Vec<String>)
    ensures
        texts(r@) == pieces(after_slashes(path@)),
{
    let len: usize = path.unicode_len();
    let ghost s = path@;
    let mut start: usize = 0;
    assert(s.skip(0) =~= s);
    while start < len && path.get_char(start) == '/'
        invariant
            len == s.len(),
            s == path@,
            start <= len,
            after_slashes(s) == after_slashes(s.skip(start as int)),
        ensures
            len == s.len(),
            start <= len,
            after_slashes(s) == s.skip(start as int),
        decreases len - start,
    {
        assert(s.skip(start as int).skip(1) =~= s.skip(start + 1));
        start = start + 1;
    }
    let ghost whole = pieces(after_slashes(s));
    let mut parts: Vec<String> = Vec::new();
    assert(texts(parts@) + whole =~= whole);
    while start < len
        invariant
            len == s.len(),
            s == path@,
            start <= len,
            whole == texts(parts@) + pieces(s.skip(start as int)),
        decreases len - start,
    {
        let mut end: usize = start;
        while end < len && path.get_char(end) != '/'
            invariant
                len == s.len(),
                s == path@,
                start <= end <= len,
                forall|i: int| start <= i < end ==> #[trigger] s[i] != '/',
            ensures
                start <= end <= len,
                forall|i: int| start <= i < end ==> #[trigger] s[i] != '/',
                end < len ==> s[end as int] == '/',
            decreases len - end,
        {
            end = end + 1;
        }
        let part = String::from_str(path.substring_char(start, end));
        let ghost rest = s.skip(start as int);
        let ghost n = end - start;
        proof {
            assert forall|i: int| 0 <= i < n implies #[trigger] rest[i] != '/' by {
                assert(s[start + i] != '/');
            }
            lemma_before_slash(rest, n);
            assert(part@ =~= rest.take(n));
        }
        let ghost former = parts@;
        parts.push(part);
        assert(texts(parts@) =~= texts(former).push(part@));
        if end < len {
            assert(rest.skip(n + 1) =~= s.skip(end + 1));
            assert(whole =~= texts(parts@) + pieces(s.skip(end + 1)));
            start = end + 1;
        } else {
            assert(whole =~= texts(parts@) + pieces(s.skip(len as int)));
            start = len;
        }
    }
    assert(s.skip(start as int).len() == 0);
    assert(texts(parts@) + Seq::<Seq<char>>::empty() =~= texts(parts@));
    parts
}

/// What stands before the first slash has no slash, and a slash follows where anything does.
proof fn lemma_first_piece(s: Seq<char>)
    ensures
        before_slash(s).len() <= s.len(),
        before_slash(s) == s.take(before_slash(s).len() as int),
        forall|i: int| 0 <= i < before_slash(s).len() ==> #[trigger] s[i] != '/',
        before_slash(s).len() < s.len() ==> s[before_slash(s).len() as int] == '/',
    decreases s.len(),
{
    if s.len() > 0 && s[0] != '/' {
        let rest = s.skip(1);
        lemma_first_piece(rest);
        let n = before_slash(s).len() as int;
        assert(s.take(n) =~= seq![s[0]] + rest.take(n - 1));
        assert forall|i: int| 0 <= i < n implies #[trigger] s[i] != '/' by {
            if i > 0 {
                assert(rest[i - 1] == s[i]);
            }
        }
    }
}

/// A slash behind text that does not end with one makes no difference to its pieces.
proof fn lemma_slash_behind(s: Seq<char>)
    requires
        s.len() > 0,
        s.last() != '/',
    ensures
        pieces(s.push('/')) == pieces(s),
    decreases s.len(),
{
    lemma_first_piece(s);
    let n = before_slash(s).len() as int;
    let longer = s.push('/');
    lemma_before_slash(longer, n);
    assert(longer.take(n) =~= s.take(n));
    if n == s.len() {
        let end = longer.skip(n + 1);
        assert(end =~= Seq::<char>::empty());
        assert(pieces(end) =~= seq![]);
        assert(pieces(longer) =~= seq![s.take(n)]);
    } else {
        let rest = s.skip(n + 1);
        lemma_slash_behind(rest);
        assert(longer.skip(n + 1) =~= rest.push('/'));
    }
}

/// Text without the slashes at its front is the end of the text.
proof fn lemma_slashes_go(s: Seq<char>)
    ensures
        after_slashes(s).len() <= s.len(),
        after_slashes(s).len() > 0 ==> after_slashes(s).last() == s.last(),
        after_slashes(s).len() > 0 ==> after_slashes(s.push('/')) == after_slashes(s).push('/'),
        after_slashes(s).len() == 0 ==> after_slashes(s.push('/')).len() == 0,
    decreases s.len(),
{
    if s.len() > 0 && s[0] == '/' {
        lemma_slashes_go(s.skip(1));
        assert(s.push('/').skip(1) =~= s.skip(1).push('/'));
    } else if s.len() == 0 {
        let end = s.push('/').skip(1);
        assert(end =~= Seq::<char>::empty());
        assert(after_slashes(end) == end);
    }
}

/// One slash at the end of text makes no difference to its pieces. A second one would: behind it an
/// empty piece ends.
pub proof fn law_one_trailing_slash_does_not_count(s: Seq<char>)
    requires
        after_slashes(s).len() > 0 ==> s.last() != '/',
    ensures
        pieces(after_slashes(s.push('/'))) == pieces(after_slashes(s)),
{
    lemma_slashes_go(s);
    if after_slashes(s).len() > 0 {
        lemma_slash_behind(after_slashes(s));
    }
}

/// Slashes at the front of text make no difference to its pieces.
pub proof fn law_leading_slashes_do_not_count(s: Seq<char>)
    ensures
        pieces(after_slashes(seq!['/'] + s)) == pieces(after_slashes(s)),
{
    assert((seq!['/'] + s).skip(1) =~= s);
}

/// Text without a slash is one piece, and two such texts with a slash between them are two.
pub proof fn law_pieces_stand_between_slashes(a: Seq<char>, b: Seq<char>)
    requires
        a.len() > 0,
        b.len() > 0,
        !a.contains('/'),
        !b.contains('/'),
    ensures
        pieces(after_slashes(a)) == seq![a],
        pieces(after_slashes(a + seq!['/'] + b)) == seq![a, b],
{
    assert forall|i: int| 0 <= i < a.len() implies #[trigger] a[i] != '/' by {
        assert(a.contains(a[i]));
    }
    assert forall|i: int| 0 <= i < b.len() implies #[trigger] b[i] != '/' by {
        assert(b.contains(b[i]));
    }
    assert(a[0] != '/');
    lemma_before_slash(a, a.len() as int);
    assert(a.take(a.len() as int) =~= a);
    assert(after_slashes(a) == a);
    assert(pieces(a) =~= seq![a]);
    let both = a + seq!['/'] + b;
    let n = a.len() as int;
    assert forall|i: int| 0 <= i < n implies #[trigger] both[i] != '/' by {
        assert(both[i] == a[i]);
    }
    assert(both[n] == '/');
    assert(both[0] == a[0]);
    lemma_before_slash(both, n);
    assert(both.take(n) =~= a);
    assert(both.skip(n + 1) =~= b);
    lemma_before_slash(b, b.len() as int);
    assert(b.take(b.len() as int) =~= b);
    assert(pieces(b) =~= seq![b]);
    assert(pieces(both) =~= seq![a, b]);
}

/// Inside of a JSON string, a character stands for itself or is escaped with a backslash: quotes,
/// backslashes and control characters are, and what is escaped in two characters has its own letter.
pub proof fn law_what_json_escapes(c: char, d: char)
    ensures
        json_char(c).len() == 1 <==> c != '"' && c != '\\' && c as u32 >= 32,
        json_char(c).len() == 1 ==> json_char(c)[0] == c,
        json_char(c).len() > 1 ==> json_char(c)[0] == '\\',
        json_char(c).len() == 1 || json_char(c).len() == 2 || json_char(c).len() == 6,
        json_char('"') == seq!['\\', '"'],
        json_char('\\') == seq!['\\', '\\'],
        json_char('\n') == seq!['\\', 'n'],
        json_char('\r') == seq!['\\', 'r'],
        json_char('\t') == seq!['\\', 't'],
        json_char(c) == json_char(d) ==> c == d,
{
    let (m, n) = (c as u32, d as u32);
    if json_char(c) == json_char(d) && json_char(c).len() == 1 {
        assert(json_char(c)[0] == c && json_char(d)[0] == d);
    }
    if json_char(c) == json_char(d) && json_char(c).len() == 2 {
        assert(json_char(c)[1] == json_char(d)[1]);
    }
    if json_char(c) == json_char(d) && json_char(c).len() == 6 {
        assert(json_char(c)[4] == json_char(d)[4]);
        assert(json_char(c)[5] == json_char(d)[5]);
        lemma_hex_digits_differ((m / 16) as nat, (n / 16) as nat);
        lemma_hex_digits_differ((m % 16) as nat, (n % 16) as nat);
    }
}

proof fn lemma_hex_digits_differ(a: nat, b: nat)
    requires
        a < 16,
        b < 16,
        hex_digit(a) == hex_digit(b),
    ensures
        a == b,
{
    assert(hex_digit(a) as u32 == if a < 10 {
        48 + a
    } else {
        87 + a
    });
    assert(hex_digit(b) as u32 == if b < 10 {
        48 + b
    } else {
        87 + b
    });
}

} // verus!
