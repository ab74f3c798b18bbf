use vstd::prelude::*;
use vstd::string::*;

verus! {

/// Unicode `White_Space`, the set that `str::trim` removes.
pub open spec fn is_white(c: char) -> bool {
    ||| ('\u{9}' <= c && c <= '\u{d}')
    ||| c == ' '
    ||| c == '\u{85}'
    ||| c == '\u{a0}'
    ||| c == '\u{1680}'
    ||| ('\u{2000}' <= c && c <= '\u{200a}')
    ||| c == '\u{2028}'
    ||| c == '\u{2029}'
    ||| c == '\u{202f}'
    ||| c == '\u{205f}'
    ||| c == '\u{3000}'
}

/// The text with its leading white space removed.
pub open spec fn trim_start(s: Seq<char>) -> Seq<char>
    decreases s.len(),
{
    if s.len() > 0 && is_white(s[0]) {
        trim_start(s.drop_first())
    } else {
        s
    }
}

/// The text with its trailing white space removed.
pub open spec fn trim_end(s: Seq<char>) -> Seq<char>
    decreases s.len(),
{
    if s.len() > 0 && is_white(s.last()) {
        trim_end(s.drop_last())
    } else {
        s
    }
}

/// The text with white space removed at both ends.
pub open spec fn trim(s: Seq<char>) -> Seq<char> {
    trim_end(trim_start(s))
}

/// ASCII upper-case letters mapped to lower case, every other character kept.
pub open spec fn ascii_lower(c: char) -> char {
    if 'A' <= c && c <= 'Z' {
        ((c as u32) + 32) as char
    } else {
        c
    }
}

pub open spec fn lower(s: Seq<char>) -> Seq<char> {
    s.map_values(|c: char| ascii_lower(c))
}

/// The form in which names are compared: trimmed, then ASCII-lower-cased.
pub open spec fn normalize(s: Seq<char>) -> Seq<char> {
    lower(trim(s))
}

pub fn is_white_char(c: char) -> (r: bool)
    ensures
        r == is_white(c),
{
    ('\u{9}' <= c && c <= '\u{d}') || c == ' ' || c == '\u{85}' || c == '\u{a0}' || c
        == '\u{1680}' || ('\u{2000}' <= c && c <= '\u{200a}') || c == '\u{2028}' || c
        == '\u{2029}' || c == '\u{202f}' || c == '\u{205f}' || c == '\u{3000}'
}

pub fn ascii_lower_char(c: char) -> (r: char)
    ensures
        r == ascii_lower(c),
{
    if 'A' <= c && c <= 'Z' {
        let b: u8 = c as u8;
        (b + 32) as char
    } else {
        c
    }
}

/// Character bounds of the trimmed part of `s`.
pub fn trim_bounds(s: &str) -> (r: (usize, usize))
    ensures
        r.0 <= r.1 <= s@.len(),
        trim(s@) == s@.subrange(r.0 as int, r.1 as int),
{
    let len = s.unicode_len();
    let mut a: usize = 0;
    assert(s@.subrange(0, len as int) =~= s@);
    while a < len && is_white_char(s.get_char(a))
        invariant
            a <= len,
            len == s@.len(),
            trim_start(s@) == trim_start(s@.subrange(a as int, len as int)),
        decreases len - a,
    {
        assert(s@.subrange(a as int, len as int).drop_first() =~= s@.subrange(
            a + 1,
            len as int,
        ));
        a = a + 1;
    }
    let mut b: usize = len;
    while b > a && is_white_char(s.get_char(b - 1))
        invariant
            a <= b <= len,
            len == s@.len(),
            trim_start(s@) == s@.subrange(a as int, len as int),
            trim_end(s@.subrange(a as int, len as int)) == trim_end(
                s@.subrange(a as int, b as int),
            ),
        decreases b,
    {
        assert(s@.subrange(a as int, b as int).drop_last() =~= s@.subrange(
            a as int,
            b - 1,
        ));
        b = b - 1;
    }
    (a, b)
}

/// Whether the trimmed, lower-cased `value` is exactly `keyword`.
pub fn normalized_eq(value: &str, keyword: &str) -> (r: bool)
    ensures
        r == (normalize(value@) == keyword@),
{
    let (a, b) = trim_bounds(value);
    let n = keyword.unicode_len();
    if b - a != n {
        return false;
    }
    let ghost t = value@.subrange(a as int, b as int);
    let mut k: usize = 0;
    while k < n
        invariant
            k <= n,
            n == keyword@.len(),
            a <= b <= value@.len(),
            b - a == n,
            t == value@.subrange(a as int, b as int),
            trim(value@) == t,
            forall|j: int| 0 <= j < k ==> ascii_lower(t[j]) == keyword@[j],
        decreases n - k,
    {
        if ascii_lower_char(value.get_char(a + k)) != keyword.get_char(k) {
            assert(normalize(value@) == lower(t));
            assert(lower(t)[k as int] != keyword@[k as int]);
            return false;
        }
        k = k + 1;
    }
    assert(normalize(value@) == lower(t));
    assert(lower(t) =~= keyword@);
    true
}

/// A sub-slice of `s` as an owned string.
pub fn owned_substring(s: &str, from: usize, to: usize) -> (r: String)
    requires
        from <= to <= s@.len(),
    ensures
        r@ == s@.subrange(from as int, to as int),
{
    String::from_str(s.substring_char(from, to))
}

/// The text of `s` with white space removed at both ends.
pub fn trimmed(s: &str) -> (r: String)
    ensures
        r@ == trim(s@),
{
    let (a, b) = trim_bounds(s);
    owned_substring(s, a, b)
}

/// The pieces of `s` between occurrences of `sep`, as `str::split` yields them
/// (one more piece than there are separators).
pub open spec fn split_on(s: Seq<char>, sep: char) -> Seq<Seq<char>>
    decreases s.len(),
{
    if s.len() == 0 {
        seq![Seq::empty()]
    } else {
        let prev = split_on(s.drop_last(), sep);
        if s.last() == sep {
            prev.push(Seq::empty())
        } else {
            prev.update(prev.len() - 1, prev.last().push(s.last()))
        }
    }
}

pub proof fn lemma_split_on_nonempty(s: Seq<char>, sep: char)
    ensures
        split_on(s, sep).len() >= 1,
    decreases s.len(),
{
    if s.len() > 0 {
        lemma_split_on_nonempty(s.drop_last(), sep);
    }
}

pub open spec fn string_views(v: Seq<String>) -> Seq<Seq<char>> {
    v.map_values(|x: String| x@)
}

/// Splits `s` at every `sep`, as `str::split` does.
pub fn split_text(s: &str, sep: char) -> (r: Vec<String>)
    ensures
        string_views(r@) == split_on(s@, sep),
{
    let len = s.unicode_len();
    let mut parts: Vec<String> = Vec::new();
    let mut start: usize = 0;
    let mut i: usize = 0;
    assert(s@.subrange(0, 0) =~= Seq::<char>::empty());
    while i < len
        invariant
            start <= i <= len,
            len == s@.len(),
            string_views(parts@).push(s@.subrange(start as int, i as int)) == split_on(
                s@.subrange(0, i as int),
                sep,
            ),
        decreases len - i,
    {
        let ghost before = string_views(parts@);
        let ghost cur = s@.subrange(start as int, i as int);
        proof {
            lemma_split_on_nonempty(s@.subrange(0, i as int), sep);
            assert(s@.subrange(0, i + 1).drop_last() =~= s@.subrange(0, i as int));
        }
        let c = s.get_char(i);
        if c == sep {
            parts.push(owned_substring(s, start, i));
            start = i + 1;
            assert(string_views(parts@) =~= before.push(cur));
            assert(s@.subrange(start as int, i + 1) =~= Seq::<char>::empty());
            assert(string_views(parts@).push(s@.subrange(start as int, i + 1)) =~= split_on(
                s@.subrange(0, i + 1),
                sep,
            ));
        } else {
            assert(s@.subrange(start as int, i + 1) =~= cur.push(c));
            assert(string_views(parts@).push(s@.subrange(start as int, i + 1)) =~= split_on(
                s@.subrange(0, i + 1),
                sep,
            ));
        }
        i = i + 1;
    }
    let ghost before = string_views(parts@);
    parts.push(owned_substring(s, start, len));
    assert(string_views(parts@) =~= before.push(s@.subrange(start as int, len as int)));
    assert(s@.subrange(0, len as int) =~= s@);
    parts
}

/// A text without white space or ASCII capitals is its own normal form.
pub proof fn lemma_normalize_plain(s: Seq<char>)
    requires
        forall|i: int| 0 <= i < s.len() ==> !is_white(#[trigger] s[i]) && !('A' <= s[i] && s[i] <= 'Z'),
    ensures
        normalize(s) == s,
{
    assert(trim_start(s) == s);
    assert(trim_end(s) == s);
    assert(lower(s) =~= s);
}

proof fn lemma_trim_start_shape(s: Seq<char>)
    ensures
        trim_start(s).len() == 0 || !is_white(trim_start(s)[0]),
        trim_start(s) == s.skip(s.len() - trim_start(s).len()),
        trim_start(s).len() <= s.len(),
    decreases s.len(),
{
    if s.len() > 0 && is_white(s[0]) {
        lemma_trim_start_shape(s.drop_first());
        assert(s.drop_first().skip(s.drop_first().len() - trim_start(s).len()) =~= s.skip(
            s.len() - trim_start(s).len(),
        ));
    } else {
        assert(s.skip(0) =~= s);
    }
}

proof fn lemma_trim_end_shape(s: Seq<char>)
    ensures
        trim_end(s).len() == 0 || !is_white(trim_end(s).last()),
        trim_end(s) == s.take(trim_end(s).len() as int),
        trim_end(s).len() <= s.len(),
    decreases s.len(),
{
    if s.len() > 0 && is_white(s.last()) {
        lemma_trim_end_shape(s.drop_last());
        assert(s.drop_last().take(trim_end(s).len() as int) =~= s.take(trim_end(s).len() as int));
    } else {
        assert(s.take(s.len() as int) =~= s);
    }
}

/// A trimmed text neither starts nor ends with white space.
proof fn lemma_trim_ends(s: Seq<char>)
    ensures
        trim(s).len() == 0 || (!is_white(trim(s)[0]) && !is_white(trim(s).last())),
{
    let t = trim_start(s);
    lemma_trim_start_shape(s);
    lemma_trim_end_shape(t);
    if trim(s).len() > 0 {
        assert(trim(s)[0] == t[0]);
    }
}

proof fn lemma_ascii_lower_keeps_white(c: char)
    ensures
        is_white(ascii_lower(c)) == is_white(c),
        ascii_lower(ascii_lower(c)) == ascii_lower(c),
{
    if 'A' <= c && c <= 'Z' {
        assert('a' <= ascii_lower(c) && ascii_lower(c) <= 'z');
    }
}

/// Normalizing is idempotent: a normalized text is its own normal form.
pub proof fn lemma_normalize_idempotent(s: Seq<char>)
    ensures
        normalize(normalize(s)) == normalize(s),
{
    let t = trim(s);
    let n = lower(t);
    lemma_trim_ends(s);
    if n.len() > 0 {
        lemma_ascii_lower_keeps_white(t[0]);
        lemma_ascii_lower_keeps_white(t.last());
        assert(n[0] == ascii_lower(t[0]));
        assert(n.last() == ascii_lower(t.last()));
    }
    assert(trim_start(n) == n);
    assert(trim_end(n) == n);
    assert(trim(n) == n);
    assert forall|i: int| 0 <= i < n.len() implies #[trigger] ascii_lower(n[i]) == n[i] by {
        lemma_ascii_lower_keeps_white(t[i]);
    }
    assert(lower(n) =~= n);
}

/// The decimal digit character of `d`.
pub open spec fn digit_char(d: nat) -> char {
    ((('0' as u32) + d) as char)
}

/// Decimal rendering of `n`, as `to_string` prints an unsigned integer.
pub open spec fn decimal(n: nat) -> Seq<char>
    decreases n,
{
    if n < 10 {
        seq![digit_char(n)]
    } else {
        decimal(n / 10).push(digit_char(n % 10))
    }
}

/// The number that a text of decimal digits denotes.
pub open spec fn digits_value(s: Seq<char>) -> int
    decreases s.len(),
{
    if s.len() == 0 {
        0
    } else {
        digits_value(s.drop_last()) * 10 + (s.last() as int - '0' as int)
    }
}

/// The decimal rendering of `n` is made of digits only, has no leading zero
/// (apart from `0` itself), and reads back as `n`.
pub proof fn lemma_decimal_reads_back(n: nat)
    ensures
        forall|i: int| 0 <= i < decimal(n).len() ==> '0' <= #[trigger] decimal(n)[i] <= '9',
        decimal(n).len() >= 1,
        n > 0 ==> decimal(n)[0] != '0',
        digits_value(decimal(n)) == n,
    decreases n,
{
    if n >= 10 {
        lemma_decimal_reads_back(n / 10);
        let d = decimal(n);
        assert(d.drop_last() == decimal(n / 10));
        assert(d[0] == decimal(n / 10)[0]);
        assert forall|i: int| 0 <= i < d.len() implies '0' <= #[trigger] d[i] <= '9' by {
            if i < d.len() - 1 {
                assert(d[i] == decimal(n / 10)[i]);
            }
        }
        assert(d.last() == digit_char(n % 10));
        assert(digit_char(n % 10) as int == 48 + n % 10);
        assert('0' as int == 48);
        assert(digits_value(d) == digits_value(decimal(n / 10)) * 10 + (d.last() as int - '0' as int));
        assert(n == (n / 10) * 10 + n % 10);
    } else {
        let d = decimal(n);
        assert(digit_char(n) as int == 48 + n);
        assert('0' as int == 48);
        assert(d.drop_last() =~= Seq::<char>::empty());
        assert(digits_value(d) == digits_value(d.drop_last()) * 10 + (d.last() as int - '0' as int));
    }
}

fn digit_str(d: u64) -> (s: &'static str)
    requires
        d < 10,
    ensures
        s@ == seq![digit_char(d as nat)],
{
    proof {
        reveal_strlit("0");
        reveal_strlit("1");
        reveal_strlit("2");
        reveal_strlit("3");
        reveal_strlit("4");
        reveal_strlit("5");
        reveal_strlit("6");
        reveal_strlit("7");
        reveal_strlit("8");
        reveal_strlit("9");
    }
    let s = match d {
        0 => "0",
        1 => "1",
        2 => "2",
        3 => "3",
        4 => "4",
        5 => "5",
        6 => "6",
        7 => "7",
        8 => "8",
        _ => "9",
    };
    assert(s@ =~= seq![digit_char(d as nat)]);
    s
}

/// Decimal rendering of `n`.
pub fn decimal_string(n: u64) -> (s: String)
    ensures
        s@ == decimal(n as nat),
    decreases n,
{
    if n < 10 {
        String::from_str(digit_str(n))
    } else {
        let mut s = decimal_string(n / 10);
        s.append(digit_str(n % 10));
        s
    }
}

/// `n` in decimal, with zeros in front up to `width` characters (as the
/// `{:0width$}` format prints an unsigned integer).
pub open spec fn zero_padded(n: nat, width: nat) -> Seq<char> {
    let digits = decimal(n);
    if digits.len() >= width {
        digits
    } else {
        Seq::new((width - digits.len()) as nat, |i: int| '0') + digits
    }
}

/// Decimal rendering of `n` padded with zeros to at least `width` characters.
pub fn zero_padded_string(n: u64, width: usize) -> (s: String)
    ensures
        s@ == zero_padded(n as nat, width as nat),
{
    let digits = decimal_string(n);
    let len = digits.as_str().unicode_len();
    let mut out = String::new();
    let mut k: usize = len;
    while k < width
        invariant
            len == decimal(n as nat).len(),
            len <= k <= width || (k == len && len >= width),
            out@ == Seq::new((k - len) as nat, |i: int| '0'),
        decreases width - k,
    {
        proof {
            reveal_strlit("0");
        }
        out.append("0");
        assert(out@ =~= Seq::new((k + 1 - len) as nat, |i: int| '0'));
        k = k + 1;
    }
    out.append(digits.as_str());
    if len >= width {
        assert(out@ =~= decimal(n as nat));
    } else {
        assert(k == width);
        assert(out@ =~= Seq::new((width - len) as nat, |i: int| '0') + decimal(n as nat));
    }
    out
}

/// Lexicographic order of texts by code point, which is the order of
/// `String`'s `Ord` (UTF-8 bytes compare as their code points do).
pub open spec fn text_lt(a: Seq<char>, b: Seq<char>) -> bool
    decreases a.len(),
{
    if a.len() == 0 {
        b.len() > 0
    } else if b.len() == 0 {
        false
    } else if a[0] != b[0] {
        a[0] < b[0]
    } else {
        text_lt(a.drop_first(), b.drop_first())
    }
}

pub proof fn lemma_text_lt_irreflexive(a: Seq<char>)
    ensures
        !text_lt(a, a),
    decreases a.len(),
{
    if a.len() > 0 {
        lemma_text_lt_irreflexive(a.drop_first());
    }
}

pub proof fn lemma_text_lt_total(a: Seq<char>, b: Seq<char>)
    ensures
        a == b || text_lt(a, b) || text_lt(b, a),
        !(text_lt(a, b) && text_lt(b, a)),
    decreases a.len(),
{
    if a.len() > 0 && b.len() > 0 && a[0] == b[0] {
        lemma_text_lt_total(a.drop_first(), b.drop_first());
        if a.drop_first() == b.drop_first() {
            assert(a =~= seq![a[0]] + a.drop_first());
            assert(b =~= seq![b[0]] + b.drop_first());
        }
    } else if a.len() == 0 && b.len() == 0 {
        assert(a =~= b);
    } else if a.len() > 0 && b.len() > 0 {
        assert(a[0] != b[0]);
    }
}

pub proof fn lemma_text_lt_transitive(a: Seq<char>, b: Seq<char>, c: Seq<char>)
    requires
        text_lt(a, b),
        text_lt(b, c),
    ensures
        text_lt(a, c),
    decreases a.len(),
{
    if a.len() > 0 && b.len() > 0 && c.len() > 0 && a[0] == b[0] && b[0] == c[0] {
        lemma_text_lt_transitive(a.drop_first(), b.drop_first(), c.drop_first());
    }
}

/// Whether `a` comes before `b` in `text_lt` order.
pub fn text_less(a: &str, b: &str) -> (r: bool)
    ensures
        r == text_lt(a@, b@),
{
    let la = a.unicode_len();
    let lb = b.unicode_len();
    let mut i: usize = 0;
    assert(a@.skip(0) =~= a@);
    assert(b@.skip(0) =~= b@);
    while i < la && i < lb && a.get_char(i) == b.get_char(i)
        invariant
            i <= la,
            i <= lb,
            la == a@.len(),
            lb == b@.len(),
            text_lt(a@, b@) == text_lt(a@.skip(i as int), b@.skip(i as int)),
        decreases la - i,
    {
        assert(a@.skip(i as int).drop_first() =~= a@.skip(i + 1));
        assert(b@.skip(i as int).drop_first() =~= b@.skip(i + 1));
        i = i + 1;
    }
    if i == la {
        i < lb
    } else if i == lb {
        false
    } else {
        a.get_char(i) < b.get_char(i)
    }
}

/// Whether `a` and `b` are the same text.
pub fn text_equal(a: &String, b: &String) -> (r: bool)
    ensures
        r == (a@ == b@),
{
    *a == *b
}

pub open spec fn texts_strictly_sorted(s: Seq<Seq<char>>) -> bool {
    forall|i: int, j: int| 0 <= i < j < s.len() ==> text_lt(s[i], s[j])
}

/// Inserts `value` into a strictly sorted list of texts unless it is there
/// already. Returns the position of `value` afterwards and whether it was
/// inserted.
pub fn insert_text_sorted(list: &mut Vec<String>, value: &str) -> (r: (usize, bool))
    requires
        texts_strictly_sorted(string_views(old(list)@)),
    ensures
        texts_strictly_sorted(string_views(final(list)@)),
        r.0 < final(list)@.len(),
        final(list)@[r.0 as int]@ == value@,
        r.1 == !string_views(old(list)@).contains(value@),
        r.1 ==> r.0 <= old(list)@.len(),
        r.1 ==> string_views(final(list)@) == string_views(old(list)@).insert(r.0 as int, value@),
        !r.1 ==> final(list)@ == old(list)@,
{
    let ghost views = string_views(list@);
    let mut pos: usize = 0;
    while pos < list.len() && text_less(list[pos].as_str(), value)
        invariant
            pos <= list@.len(),
            views == string_views(list@),
            forall|k: int| 0 <= k < pos ==> text_lt(#[trigger] views[k], value@),
        decreases list@.len() - pos,
    {
        pos = pos + 1;
    }
    let owned = String::from_str(value);
    if pos < list.len() && text_equal(&list[pos], &owned) {
        assert(views[pos as int] == value@);
        assert(views.contains(value@));
        return (pos, false);
    }
    proof {
        assert forall|k: int| 0 <= k < views.len() implies views[k] != value@ by {
            if k < pos {
                lemma_text_lt_irreflexive(value@);
            } else {
                lemma_text_lt_total(views[pos as int], value@);
                if k > pos {
                    lemma_text_lt_transitive(value@, views[pos as int], views[k]);
                    lemma_text_lt_irreflexive(value@);
                }
            }
        }
        if pos < views.len() {
            lemma_text_lt_total(views[pos as int], value@);
        }
    }
    list.insert(pos, owned);
    let ghost after = string_views(list@);
    assert(after =~= views.insert(pos as int, value@));
    assert forall|i: int, j: int| 0 <= i < j < after.len() implies text_lt(after[i], after[j]) by {
        if j < pos {
        } else if j == pos {
        } else if i < pos {
            if j > pos + 1 {
                lemma_text_lt_transitive(value@, views[pos as int], views[j - 1]);
            }
            lemma_text_lt_transitive(after[i], value@, after[j]);
        } else if i == pos {
            if j > pos + 1 {
                lemma_text_lt_transitive(value@, views[pos as int], views[j - 1]);
            }
        } else {
        }
    }
    (pos, true)
}

} // verus!
