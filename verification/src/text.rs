//! Numbers, lists and names as text.
use vstd::prelude::*;
use vstd::string::*;

verus! {

/// The decimal digit `d` as a character.
pub open spec fn digit_char(d: int) -> char {
    (48 + d) as char
}

/// `n` in decimal, without leading zeros.
pub open spec fn decimal(n: nat) -> Seq<char>
    decreases n,
{
    if n < 10 {
        seq![digit_char(n as int)]
    } else {
        decimal(n / 10).push(digit_char((n % 10) as int))
    }
}

/// `n` in decimal, with a minus sign where it is negative.
pub open spec fn signed_decimal(n: int) -> Seq<char> {
    if n < 0 {
        seq!['-'] + decimal((-n) as nat)
    } else {
        decimal(n as nat)
    }
}

/// The hexadecimal digit `d` as a lower-case character.
pub open spec fn hex_char(d: int) -> char {
    if d < 10 {
        (48 + d) as char
    } else {
        (87 + d) as char
    }
}

/// `b` as two lower-case hexadecimal digits.
pub open spec fn hex_byte(b: u8) -> Seq<char> {
    seq![hex_char(b as int / 16), hex_char(b as int % 16)]
}

/// The texts in `parts`, with `sep` between neighbours.
pub open spec fn joined(parts: Seq<Seq<char>>, sep: Seq<char>) -> Seq<char>
    decreases parts.len(),
{
    if parts.len() == 0 {
        Seq::empty()
    } else if parts.len() == 1 {
        parts[0]
    } else {
        joined(parts.drop_last(), sep) + sep + parts.last()
    }
}

/// The numbers in `items` as a bracketed list: `[0, 1, 2]`.
pub open spec fn bracketed(items: Seq<usize>) -> Seq<char> {
    "["@ + joined(items.map_values(|n: usize| decimal(n as nat)), ", "@) + "]"@
}

/// `c` is white space in the sense of Unicode.
pub open spec fn is_white(c: char) -> bool {
    let n = c as int;
    ||| 0x09 <= n <= 0x0d
    ||| n == 0x20
    ||| n == 0x85
    ||| n == 0xa0
    ||| n == 0x1680
    ||| 0x2000 <= n <= 0x200a
    ||| n == 0x2028
    ||| n == 0x2029
    ||| n == 0x202f
    ||| n == 0x205f
    ||| n == 0x3000
}

/// `s` without the white space at its two ends.
pub open spec fn trimmed(s: Seq<char>) -> Seq<char>
    decreases s.len(),
{
    if s.len() == 0 {
        s
    } else if is_white(s.first()) {
        trimmed(s.drop_first())
    } else if is_white(s.last()) {
        trimmed(s.drop_last())
    } else {
        s
    }
}

/// `c`, in lower case if it is an ASCII letter.
pub open spec fn lower_char(c: char) -> char {
    if 'A' <= c && c <= 'Z' {
        (c as int + 32) as char
    } else {
        c
    }
}

/// `s` with its ASCII letters in lower case.
pub open spec fn lowered(s: Seq<char>) -> Seq<char> {
    s.map_values(|c: char| lower_char(c))
}

/// `s` names `name`: they are the same but for white space round `s` and the case of letters in it.
pub open spec fn names(s: Seq<char>, name: Seq<char>) -> bool {
    lowered(trimmed(s)) == name
}

fn digit_str(d: u8) -> (r: &'static str)
    requires
        d < 16,
    ensures
        r@ == seq![hex_char(d as int)],
{
    proof {
        reveal_strlit("0");
        reveal_strlit("1");
        reveal_strlit("2");
        reveal_strlit("3");
        reveal_strlit("4");
        reveal_strlit("5");
        reveal_strlit("6");
        reveal_strlit("7");
        reveal_strlit("8");
        reveal_strlit("9");
        reveal_strlit("a");
        reveal_strlit("b");
        reveal_strlit("c");
        reveal_strlit("d");
        reveal_strlit("e");
        reveal_strlit("f");
    }
    if d == 0 {
        "0"
    } else if d == 1 {
        "1"
    } else if d == 2 {
        "2"
    } else if d == 3 {
        "3"
    } else if d == 4 {
        "4"
    } else if d == 5 {
        "5"
    } else if d == 6 {
        "6"
    } else if d == 7 {
        "7"
    } else if d == 8 {
        "8"
    } else if d == 9 {
        "9"
    } else if d == 10 {
        "a"
    } else if d == 11 {
        "b"
    } else if d == 12 {
        "c"
    } else if d == 13 {
        "d"
    } else if d == 14 {
        "e"
    } else {
        "f"
    }
}

/// `n` in decimal.
pub fn dec_u64(n: u64) -> (r: String)
    ensures
        r@ == decimal(n as nat),
    decreases n,
{
    if n < 10 {
        digit_str(n as u8).to_string()
    } else {
        let mut r = dec_u64(n / 10);
        r.append(digit_str((n % 10) as u8));
        r
    }
}

/// `n` in decimal, with a minus sign where it is negative.
pub fn dec_i64(n: i64) -> (r: String)
    ensures
        r@ == signed_decimal(n as int),
{
    if n < 0 {
        proof {
            reveal_strlit("-");
        }
        let mut r = "-".to_string();
        let magnitude: u64 = (-(n as i128)) as u64;
        let digits = dec_u64(magnitude);
        r.append(digits.as_str());
        assert(r@ =~= seq!['-'] + decimal(magnitude as nat));
        r
    } else {
        dec_u64(n as u64)
    }
}

/// `b` as two lower-case hexadecimal digits.
pub fn hex_u8(b: u8) -> (r: String)
    ensures
        r@ == hex_byte(b),
{
    let mut r = digit_str(b / 16).to_string();
    r.append(digit_str(b % 16));
    assert(r@ =~= hex_byte(b));
    r
}

/// The views of the texts in `parts`.
pub open spec fn views(parts: Seq<String>) -> Seq<Seq<char>> {
    parts.map_values(|p: String| p@)
}

/// Joins the texts in `parts`, with `sep` between neighbours.
pub fn join(parts: &Vec<String>, sep: &str) -> (r: String)
    ensures
        r@ == joined(views(parts@), sep@),
{
    let mut r = String::new();
    let mut i: usize = 0;
    assert(views(parts@).take(0) =~= Seq::empty());
    while i < parts.len()
        invariant
            i <= parts@.len(),
            r@ == joined(views(parts@).take(i as int), sep@),
        decreases parts@.len() - i,
    {
        let ghost seen = views(parts@).take(i as int);
        let ghost more = views(parts@).take(i + 1);
        assert(more.drop_last() =~= seen);
        assert(more.last() == parts@[i as int]@);
        if i > 0 {
            r.append(sep);
            r.append(parts[i].as_str());
        } else {
            r.append(parts[i].as_str());
            assert(r@ =~= more[0]);
        }
        i = i + 1;
    }
    assert(views(parts@).take(i as int) =~= views(parts@));
    r
}

/// The numbers in `items` as a bracketed list.
pub fn bracket(items: &Vec<usize>) -> (r: String)
    ensures
        r@ == bracketed(items@),
{
    let mut parts: Vec<String> = Vec::new();
    let mut i: usize = 0;
    while i < items.len()
        invariant
            i <= items@.len(),
            parts@.len() == i,
            forall|k: int| 0 <= k < i ==> (#[trigger] parts@[k])@ == decimal(items@[k] as nat),
        decreases items@.len() - i,
    {
        parts.push(dec_u64(items[i] as u64));
        i = i + 1;
    }
    let inner = join(&parts, ", ");
    assert(views(parts@) =~= items@.map_values(|n: usize| decimal(n as nat)));
    let mut r = "[".to_string();
    r.append(inner.as_str());
    r.append("]");
    r
}

fn white(c: char) -> (r: bool)
    ensures
        r == is_white(c),
{
    let n: u32 = c as u32;
    (0x09 <= n && n <= 0x0d) || n == 0x20 || n == 0x85 || n == 0xa0 || n == 0x1680 || (0x2000 <= n
        && n <= 0x200a) || n == 0x2028 || n == 0x2029 || n == 0x202f || n == 0x205f || n == 0x3000
}

fn lower(c: char) -> (r: char)
    ensures
        r == lower_char(c),
{
    if 'A' <= c && c <= 'Z' {
        ((c as u8) + 32) as char
    } else {
        c
    }
}

fn chars_of(s: &str) -> (v: Vec<char>)
    ensures
        v@ == s@,
{
    let mut v: Vec<char> = Vec::new();
    for c in it: s.chars()
        invariant
            v@ == s@.take(it.index() as int),
            it.seq() == s@,
    {
        v.push(c);
        assert(s@.take(it.index() + 1) =~= s@.take(it.index() as int).push(c));
    }
    assert(s@.take(s@.len() as int) =~= s@);
    v
}

proof fn lemma_trimmed_skips_front(s: Seq<char>, k: int)
    requires
        0 <= k <= s.len(),
        forall|i: int| 0 <= i < k ==> is_white(#[trigger] s[i]),
    ensures
        trimmed(s) == trimmed(s.skip(k)),
    decreases k,
{
    if k > 0 {
        let rest = s.drop_first();
        assert forall|i: int| 0 <= i < k - 1 implies is_white(#[trigger] rest[i]) by {
            assert(rest[i] == s[i + 1]);
        }
        lemma_trimmed_skips_front(rest, k - 1);
        assert(rest.skip(k - 1) =~= s.skip(k));
        assert(is_white(s[0]));
    } else {
        assert(s.skip(0) =~= s);
    }
}

proof fn lemma_trimmed_skips_back(s: Seq<char>, k: int)
    requires
        0 < k <= s.len(),
        !is_white(s[0]),
        !is_white(s[k - 1]),
        forall|i: int| k <= i < s.len() ==> is_white(#[trigger] s[i]),
    ensures
        trimmed(s) == s.take(k),
    decreases s.len(),
{
    if k < s.len() {
        assert(is_white(s[s.len() - 1]));
        lemma_trimmed_skips_back(s.drop_last(), k);
        assert(s.drop_last().take(k) =~= s.take(k));
    } else {
        assert(s.take(k) =~= s);
    }
}

proof fn lemma_trimmed_all_white(s: Seq<char>)
    requires
        forall|i: int| 0 <= i < s.len() ==> is_white(#[trigger] s[i]),
    ensures
        trimmed(s) =~= Seq::<char>::empty(),
{
    lemma_trimmed_skips_front(s, s.len() as int);
}

/// Tells whether `s` names `name`: white space round `s` and the case of its letters do not count.
pub fn is_named(s: &str, name: &str) -> (r: bool)
    ensures
        r == names(s@, name@),
{
    let v = chars_of(s);
    let w = chars_of(name);
    let mut from: usize = 0;
    while from < v.len() && white(v[from])
        invariant
            from <= v@.len(),
            forall|i: int| 0 <= i < from ==> is_white(#[trigger] v@[i]),
        decreases v@.len() - from,
    {
        from = from + 1;
    }
    let mut to: usize = v.len();
    while from < to && white(v[to - 1])
        invariant
            from <= to <= v@.len(),
            forall|i: int| to <= i < v@.len() ==> is_white(#[trigger] v@[i]),
        decreases to,
    {
        to = to - 1;
    }
    proof {
        if from == v@.len() {
            lemma_trimmed_all_white(v@);
        } else {
            let rest = v@.skip(from as int);
            lemma_trimmed_skips_front(v@, from as int);
            assert(!is_white(rest[0]));
            assert(from < to) by {
                if from == to {
                    assert(is_white(v@[from as int]));
                }
            }
            assert forall|i: int| to - from <= i < rest.len() implies is_white(
                #[trigger] rest[i],
            ) by {
                assert(rest[i] == v@[i + from]);
            }
            lemma_trimmed_skips_back(rest, to - from);
        }
    }
    let ghost core = v@.subrange(from as int, to as int);
    assert(trimmed(v@) =~= core);
    if to - from != w.len() {
        assert(lowered(core).len() != w@.len());
        return false;
    }
    let mut i: usize = 0;
    while i < w.len()
        invariant
            from <= to <= v@.len(),
            to - from == w@.len(),
            i <= w@.len(),
            core == v@.subrange(from as int, to as int),
            trimmed(s@) == core,
            w@ == name@,
            forall|k: int| 0 <= k < i ==> lower_char(core[k]) == #[trigger] w@[k],
        decreases w@.len() - i,
    {
        if lower(v[from + i]) != w[i] {
            assert(lowered(core)[i as int] != w@[i as int]);
            return false;
        }
        i = i + 1;
    }
    assert(lowered(core) =~= w@);
    true
}

/// What Rust's debug format prints for the text `s`: in double quotes, with escapes.
pub uninterp spec fn debug_text(s: Seq<char>) -> Seq<char>;

/// `s` as `{:?}` prints it. Calls the `Debug` format of `str` in std; all that is claimed of it
/// is that the printed text depends on nothing but `s`.
#[verifier::external_body]
pub(crate) fn quoted(s: &str) -> (r: String)
    ensures
        r@ == debug_text(s@),
{
    format!("{:?}", s)
}

/// The number that the decimal digits in `s` stand for.
pub open spec fn decimal_value(s: Seq<char>) -> nat
    decreases s.len(),
{
    if s.len() == 0 {
        0
    } else {
        (10 * decimal_value(s.drop_last()) + (s.last() as int - 48)) as nat
    }
}

/// Every character of `s` is a decimal digit.
pub open spec fn all_digits(s: Seq<char>) -> bool {
    forall|i: int| 0 <= i < s.len() ==> '0' <= #[trigger] s[i] && s[i] <= '9'
}

/// Decimal text is made of digits, is never empty, and reads back as the number that was written.
pub proof fn law_decimal_reads_back(n: nat)
    ensures
        decimal(n).len() > 0,
        all_digits(decimal(n)),
        decimal_value(decimal(n)) == n,
    decreases n,
{
    if n < 10 {
        assert(decimal(n).drop_last() =~= Seq::empty());
        assert(decimal_value(Seq::empty()) == 0);
    } else {
        law_decimal_reads_back(n / 10);
        assert(decimal(n).drop_last() =~= decimal(n / 10));
    }
}

/// The number that a hexadecimal digit stands for.
spec fn hex_value(c: char) -> int {
    if c <= '9' {
        c as int - 48
    } else {
        c as int - 87
    }
}

/// Different bytes have different hexadecimal texts.
pub proof fn law_hex_byte_is_injective(a: u8, b: u8)
    requires
        hex_byte(a) == hex_byte(b),
    ensures
        a == b,
{
    assert(hex_byte(a)[0] == hex_byte(b)[0]);
    assert(hex_byte(a)[1] == hex_byte(b)[1]);
    assert(hex_value(hex_byte(a)[0]) == a as int / 16);
    assert(hex_value(hex_byte(a)[1]) == a as int % 16);
    assert(hex_value(hex_byte(b)[0]) == b as int / 16);
    assert(hex_value(hex_byte(b)[1]) == b as int % 16);
}

proof fn lemma_trimmed_drops_last_white(s: Seq<char>, c: char)
    requires
        is_white(c),
    ensures
        trimmed(s.push(c)) == trimmed(s),
    decreases s.len(),
{
    let t = s.push(c);
    if s.len() == 0 {
        assert(t.drop_first() =~= s);
        assert(t.first() == c);
    } else if is_white(s.first()) {
        assert(t.first() == s.first());
        assert(t.drop_first() =~= s.drop_first().push(c));
        lemma_trimmed_drops_last_white(s.drop_first(), c);
    } else {
        assert(t.drop_last() =~= s);
    }
}

proof fn lemma_trimmed_drops_white_tail(s: Seq<char>, b: Seq<char>)
    requires
        forall|i: int| 0 <= i < b.len() ==> is_white(#[trigger] b[i]),
    ensures
        trimmed(s + b) == trimmed(s),
    decreases b.len(),
{
    if b.len() == 0 {
        assert(s + b =~= s);
    } else {
        assert(s + b =~= (s + b.drop_last()).push(b.last()));
        lemma_trimmed_drops_white_tail(s, b.drop_last());
        lemma_trimmed_drops_last_white(s + b.drop_last(), b.last());
    }
}

proof fn lemma_lowered_trims_alike(s: Seq<char>)
    ensures
        trimmed(lowered(s)) == lowered(trimmed(s)),
    decreases s.len(),
{
    if s.len() > 0 {
        if is_white(s.first()) {
            lemma_lowered_trims_alike(s.drop_first());
            assert(lowered(s).drop_first() =~= lowered(s.drop_first()));
        } else if is_white(s.last()) {
            lemma_lowered_trims_alike(s.drop_last());
            assert(lowered(s).drop_last() =~= lowered(s.drop_last()));
        }
    }
}

/// White space round a name does not change what it names.
pub proof fn law_padding_does_not_change_a_name(
    before: Seq<char>,
    s: Seq<char>,
    after: Seq<char>,
    name: Seq<char>,
)
    requires
        forall|i: int| 0 <= i < before.len() ==> is_white(#[trigger] before[i]),
        forall|i: int| 0 <= i < after.len() ==> is_white(#[trigger] after[i]),
    ensures
        names(before + s + after, name) == names(s, name),
{
    lemma_trimmed_drops_white_tail(before + s, after);
    assert forall|i: int| 0 <= i < before.len() implies is_white(#[trigger] (before + s)[i]) by {
        assert((before + s)[i] == before[i]);
    }
    lemma_trimmed_skips_front(before + s, before.len() as int);
    assert((before + s).skip(before.len() as int) =~= s);
}

/// The case of ASCII letters does not change what a text names.
pub proof fn law_case_does_not_change_a_name(a: Seq<char>, b: Seq<char>, name: Seq<char>)
    requires
        lowered(a) == lowered(b),
    ensures
        names(a, name) == names(b, name),
{
    lemma_lowered_trims_alike(a);
    lemma_lowered_trims_alike(b);
}

/// The two digits of a byte stand for its upper and its lower half.
pub proof fn law_hex_digits_stand_for_halves(b: u8)
    ensures
        hex_byte(b).len() == 2,
        b / 16 < 10 ==> hex_byte(b)[0] as int == '0' as int + b / 16,
        b / 16 >= 10 ==> hex_byte(b)[0] as int == 'a' as int + b / 16 - 10,
        b % 16 < 10 ==> hex_byte(b)[1] as int == '0' as int + b % 16,
        b % 16 >= 10 ==> hex_byte(b)[1] as int == 'a' as int + b % 16 - 10,
{
}

/// Joining puts the separator between neighbours and nowhere else.
pub proof fn law_joining_adds_one_at_a_time(
    parts: Seq<Seq<char>>,
    sep: Seq<char>,
    next: Seq<char>,
)
    ensures
        joined(Seq::empty(), sep) == Seq::<char>::empty(),
        parts.len() == 0 ==> joined(parts.push(next), sep) == next,
        parts.len() > 0 ==> joined(parts.push(next), sep) == joined(parts, sep) + sep + next,
{
    let more = parts.push(next);
    assert(more.drop_last() =~= parts);
    if parts.len() == 0 {
        assert(more[0] == next);
    } else {
        assert(more.last() == next);
    }
}

/// A bracketed list of numbers is the numbers in decimal, in order, with a comma and a blank between
/// neighbours, in brackets.
pub proof fn law_a_list_grows_by_its_next_number(items: Seq<usize>, next: usize)
    ensures
        bracketed(Seq::empty()) == "["@ + "]"@,
        items.len() == 0 ==> bracketed(items.push(next)) == "["@ + decimal(next as nat) + "]"@,
        items.len() > 0 ==> exists|inner: Seq<char>|
            bracketed(items) == "["@ + inner + "]"@ && bracketed(items.push(next)) == "["@ + (
            #[trigger] (inner + ", "@) + decimal(next as nat)) + "]"@,
{
    let f = |n: usize| decimal(n as nat);
    let texts = items.map_values(f);
    assert(Seq::<usize>::empty().map_values(f) =~= Seq::empty());
    assert("["@ + Seq::<char>::empty() =~= "["@);
    assert(items.push(next).map_values(f) =~= texts.push(decimal(next as nat)));
    law_joining_adds_one_at_a_time(texts, ", "@, decimal(next as nat));
    if items.len() > 0 {
        let inner = joined(texts, ", "@);
        assert(bracketed(items) == "["@ + inner + "]"@);
        assert(bracketed(items.push(next)) == "["@ + ((inner + ", "@) + decimal(next as nat)) + "]"@);
    }
}

/// Trimming takes away white space at the two ends and nothing else, and leaves none there.
pub proof fn law_trimming_takes_white_space_off_the_ends(s: Seq<char>) -> (ends: (int, int))
    ensures
        0 <= ends.0 <= ends.1 <= s.len(),
        trimmed(s) == s.subrange(ends.0, ends.1),
        forall|i: int| 0 <= i < ends.0 ==> is_white(#[trigger] s[i]),
        forall|i: int| ends.1 <= i < s.len() ==> is_white(#[trigger] s[i]),
        ends.0 < ends.1 ==> !is_white(s[ends.0]) && !is_white(s[ends.1 - 1]),
    decreases s.len(),
{
    if s.len() == 0 {
        assert(s.subrange(0, 0) =~= s);
        (0, 0)
    } else if is_white(s.first()) {
        let rest = s.drop_first();
        let (a, b) = law_trimming_takes_white_space_off_the_ends(rest);
        assert(rest.subrange(a, b) =~= s.subrange(a + 1, b + 1));
        assert forall|i: int| 0 <= i < a + 1 implies is_white(#[trigger] s[i]) by {
            if i > 0 {
                assert(is_white(rest[i - 1]));
            }
        }
        assert forall|i: int| b + 1 <= i < s.len() implies is_white(#[trigger] s[i]) by {
            assert(is_white(rest[i - 1]));
        }
        (a + 1, b + 1)
    } else if is_white(s.last()) {
        let rest = s.drop_last();
        let (a, b) = law_trimming_takes_white_space_off_the_ends(rest);
        assert(rest.subrange(a, b) =~= s.subrange(a, b));
        assert forall|i: int| 0 <= i < a implies is_white(#[trigger] s[i]) by {
            assert(is_white(rest[i]));
        }
        assert forall|i: int| b <= i < s.len() implies is_white(#[trigger] s[i]) by {
            if i < s.len() - 1 {
                assert(is_white(rest[i]));
            }
        }
        (a, b)
    } else {
        assert(s.subrange(0, s.len() as int) =~= s);
        (0, s.len() as int)
    }
}

/// Lowering changes the 26 capital letters, each to its small letter, and no other character.
pub proof fn law_lowering_changes_capitals_only(s: Seq<char>, i: int)
    requires
        0 <= i < s.len(),
    ensures
        lowered(s).len() == s.len(),
        'A' <= s[i] && s[i] <= 'Z' ==> lowered(s)[i] as int - 'a' as int == s[i] as int - 'A' as int,
        !('A' <= s[i] && s[i] <= 'Z') ==> lowered(s)[i] == s[i],
{
}

/// A text names what it reads like once it is trimmed and lowered, and nothing else.
pub proof fn law_a_text_names_one_thing(s: Seq<char>, name: Seq<char>)
    ensures
        names(s, name) <==> lowered(trimmed(s)) == name,
{
}

/// Decimal text grows by one digit at a time: a number below ten is its digit, and ten times a number
/// plus a digit is the number's text followed by the digit. So there are no leading zeros.
pub proof fn law_decimal_grows_by_a_digit(n: nat, d: nat)
    requires
        d < 10,
    ensures
        decimal(d).len() == 1,
        decimal(d)[0] as int == '0' as int + d,
        n > 0 ==> decimal(10 * n + d) == decimal(n) + decimal(d),
        n > 0 ==> decimal(n)[0] != '0',
{
    if n > 0 {
        assert((10 * n + d) / 10 == n);
        assert((10 * n + d) % 10 == d);
        assert(decimal(n).push(digit_char(d as int)) =~= decimal(n) + decimal(d));
        lemma_no_leading_zero(n);
    }
}

proof fn lemma_no_leading_zero(n: nat)
    requires
        n > 0,
    ensures
        decimal(n).len() > 0,
        decimal(n)[0] != '0',
    decreases n,
{
    if n >= 10 {
        lemma_no_leading_zero(n / 10);
    }
}

/// A negative number is a minus sign and the text of its size; any other is the text of its size alone.
pub proof fn law_a_sign_marks_negative_numbers(n: nat)
    ensures
        signed_decimal(n as int) == decimal(n),
        n > 0 ==> signed_decimal(-n) == seq!['-'] + decimal(n),
{
}

/// The views of texts are the texts themselves, one for one.
pub proof fn law_views_are_one_for_one(parts: Seq<String>, i: int)
    ensures
        views(parts).len() == parts.len(),
        0 <= i < parts.len() ==> views(parts)[i] == parts[i]@,
{
}

} // verus!
