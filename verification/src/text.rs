//! Text: building strings, searching them, and writing numbers and literals.

use vstd::prelude::*;

verus! {

/// `String::push` appends one character.
pub assume_specification[ String::push ](s: &mut String, c: char)
    ensures
        final(s)@ == old(s)@.push(c),
;

/// `String::push_str` appends a string slice.
pub assume_specification[ String::push_str ](s: &mut String, other: &str)
    ensures
        final(s)@ == old(s)@ + other@,
;

/// The characters of a string slice.
pub fn to_chars(s: &str) -> (chars: Vec<char>)
    ensures
        chars@ == s@,
{
    let mut chars: Vec<char> = Vec::new();
    for c in it: s.chars()
        invariant
            it.seq() == s@,
            chars@ == s@.take(it.index() as int),
    {
        chars.push(c);
    }
    proof {
        assert(s@.take(s@.len() as int) =~= s@);
    }
    chars
}

/// The string of the characters from `from` up to `to`.
pub fn from_chars(chars: &Vec<char>, from: usize, to: usize) -> (s: String)
    requires
        from <= to <= chars@.len(),
    ensures
        s@ == chars@.subrange(from as int, to as int),
{
    let mut s = String::new();
    let mut i: usize = from;
    while i < to
        invariant
            from <= i <= to <= chars@.len(),
            s@ == chars@.subrange(from as int, i as int),
        decreases to - i,
    {
        s.push(chars[i]);
        i = i + 1;
        assert(s@ =~= chars@.subrange(from as int, i as int));
    }
    s
}

/// The characters of several strings.
pub open spec fn texts(strings: Seq<String>) -> Seq<Seq<char>> {
    strings.map_values(|s: String| s@)
}

/// One more string brings the strings one further in the texts that they are
/// to be.
pub(crate) proof fn texts_extend(strings: Seq<String>, s: String, all: Seq<Seq<char>>)
    requires
        strings.len() < all.len(),
        texts(strings) == all.take(strings.len() as int),
        s@ == all[strings.len() as int],
    ensures
        texts(strings.push(s)) == all.take(strings.len() as int + 1),
{
    let n = strings.len() as int;
    assert(texts(strings).len() == n);
    assert(texts(strings.push(s)) =~= texts(strings).push(s@));
    assert(all.take(n + 1) =~= all.take(n).push(all[n]));
}

/// Several texts with a separator between each two.
pub open spec fn joined(parts: Seq<Seq<char>>, separator: Seq<char>) -> Seq<char>
    decreases parts.len(),
{
    if parts.len() == 0 {
        Seq::empty()
    } else if parts.len() == 1 {
        parts[0]
    } else {
        joined(parts.drop_last(), separator) + separator + parts.last()
    }
}

/// Puts several strings one after the other, with a separator between.
pub fn join(parts: &Vec<String>, separator: &str) -> (s: String)
    ensures
        s@ == joined(texts(parts@), separator@),
{
    let mut s = String::new();
    let ghost all = texts(parts@);
    let mut i: usize = 0;
    while i < parts.len()
        invariant
            i <= parts@.len(),
            all == texts(parts@),
            s@ == joined(all.take(i as int), separator@),
        decreases parts.len() - i,
    {
        proof {
            assert(all.take(i + 1).drop_last() =~= all.take(i as int));
            assert(all.take(i + 1).last() == parts@[i as int]@);
        }
        if i > 0 {
            s.push_str(separator);
        }
        s.push_str(&parts[i]);
        proof {
            if i == 0 {
                assert(s@ =~= all.take(1)[0]);
            }
        }
        i = i + 1;
    }
    assert(all.take(i as int) =~= all);
    s
}

/// Whether one of several strings is `name`.
pub fn contains(strings: &Vec<String>, name: &String) -> (found: bool)
    ensures
        found == texts(strings@).contains(name@),
{
    let mut i: usize = 0;
    while i < strings.len()
        invariant
            i <= strings@.len(),
            forall|j: int| 0 <= j < i ==> texts(strings@)[j] != name@,
        decreases strings.len() - i,
    {
        if strings[i] == *name {
            assert(texts(strings@)[i as int] == name@);
            return true;
        }
        i = i + 1;
    }
    false
}

/// Whether `pattern` stands in `s` at position `i`.
pub open spec fn occurs_at(s: Seq<char>, pattern: Seq<char>, i: int) -> bool {
    0 <= i && i + pattern.len() <= s.len() && s.subrange(i, i + pattern.len()) == pattern
}

/// The first position from `from` on at which `pattern` stands in `s`.
pub open spec fn first_occurrence(s: Seq<char>, pattern: Seq<char>, from: int) -> Option<int>
    decreases s.len() - from + 1,
{
    if from < 0 || from > s.len() {
        None
    } else if occurs_at(s, pattern, from) {
        Some(from)
    } else {
        first_occurrence(s, pattern, from + 1)
    }
}

/// Whether `pattern` stands in `s` at position `i`.
fn occurs(s: &Vec<char>, pattern: &Vec<char>, i: usize) -> (found: bool)
    requires
        i <= s@.len(),
    ensures
        found == occurs_at(s@, pattern@, i as int),
{
    if pattern.len() > s.len() - i {
        return false;
    }
    let mut k: usize = 0;
    while k < pattern.len()
        invariant
            k <= pattern@.len(),
            i + pattern.len() <= s.len(),
            forall|j: int| 0 <= j < k ==> s@[i + j] == pattern@[j],
        decreases pattern.len() - k,
    {
        if s[i + k] != pattern[k] {
            assert(s@.subrange(i as int, i + pattern@.len())[k as int] != pattern@[k as int]);
            return false;
        }
        k = k + 1;
    }
    assert(s@.subrange(i as int, i + pattern@.len()) =~= pattern@);
    true
}

/// Finds the first position at which `pattern` stands in `s`.
pub fn find(s: &Vec<char>, pattern: &Vec<char>) -> (position: Option<usize>)
    ensures
        match position {
            Some(i) => first_occurrence(s@, pattern@, 0) == Some(i as int),
            None => first_occurrence(s@, pattern@, 0) is None,
        },
{
    let mut i: usize = 0;
    while i < s.len()
        invariant
            i <= s@.len(),
            first_occurrence(s@, pattern@, 0) == first_occurrence(s@, pattern@, i as int),
        decreases s.len() - i,
    {
        if occurs(s, pattern, i) {
            return Some(i);
        }
        i = i + 1;
    }
    if occurs(s, pattern, i) {
        Some(i)
    } else {
        assert(first_occurrence(s@, pattern@, i + 1) is None);
        None
    }
}

/// What `first_occurrence` finds is an occurrence, and there is none before.
pub proof fn first_occurrence_is_first(s: Seq<char>, pattern: Seq<char>, from: int)
    requires
        0 <= from,
    ensures
        match first_occurrence(s, pattern, from) {
            Some(i) => from <= i && occurs_at(s, pattern, i) && forall|j: int|
                from <= j < i ==> !occurs_at(s, pattern, j),
            None => forall|j: int| from <= j ==> !occurs_at(s, pattern, j),
        },
    decreases s.len() - from + 1,
{
    if from <= s.len() && !occurs_at(s, pattern, from) {
        first_occurrence_is_first(s, pattern, from + 1);
    }
}

/// Whether `pattern` stands anywhere in `s`.
pub open spec fn has_substring(s: Seq<char>, pattern: Seq<char>) -> bool {
    exists|i: int| occurs_at(s, pattern, i)
}

/// Whether `pattern` stands anywhere in `s`.
pub fn contains_text(s: &str, pattern: &str) -> (found: bool)
    ensures
        found == has_substring(s@, pattern@),
{
    let position = find(&to_chars(s), &to_chars(pattern));
    proof {
        first_occurrence_is_first(s@, pattern@, 0);
    }
    position.is_some()
}

/// `s` with every occurrence of `pattern`, from left to right and without
/// overlap, replaced.
pub open spec fn replaced(s: Seq<char>, pattern: Seq<char>, replacement: Seq<char>) -> Seq<char>
    decreases s.len(),
{
    if s.len() == 0 || pattern.len() == 0 {
        s
    } else if occurs_at(s, pattern, 0) {
        replacement + replaced(s.skip(pattern.len() as int), pattern, replacement)
    } else {
        seq![s[0]] + replaced(s.skip(1), pattern, replacement)
    }
}

/// Replaces every occurrence of a pattern that is not empty.
pub fn replace(s: &str, pattern: &str, replacement: &str) -> (result: String)
    requires
        pattern@.len() > 0,
    ensures
        result@ == replaced(s@, pattern@, replacement@),
{
    let chars = to_chars(s);
    let wanted = to_chars(pattern);
    let mut result = String::new();
    let mut i: usize = 0;
    assert(s@.skip(0) =~= s@);
    while i < chars.len()
        invariant
            chars@ == s@,
            wanted@ == pattern@,
            pattern@.len() > 0,
            i <= chars@.len(),
            replaced(s@, pattern@, replacement@) == result@ + replaced(
                s@.skip(i as int),
                pattern@,
                replacement@,
            ),
        decreases chars.len() - i,
    {
        let ghost rest = s@.skip(i as int);
        if occurs(&chars, &wanted, i) {
            result.push_str(replacement);
            proof {
                assert(rest.subrange(0, pattern@.len() as int) =~= s@.subrange(
                    i as int,
                    i + pattern@.len(),
                ));
                assert(occurs_at(rest, pattern@, 0));
                assert(rest.skip(pattern@.len() as int) =~= s@.skip(i + pattern@.len()));
                assert(replaced(s@, pattern@, replacement@) =~= result@ + replaced(
                    s@.skip(i + pattern@.len()),
                    pattern@,
                    replacement@,
                ));
            }
            i = i + wanted.len();
        } else {
            result.push(chars[i]);
            proof {
                if occurs_at(rest, pattern@, 0) {
                    assert(rest.subrange(0, pattern@.len() as int) =~= s@.subrange(
                        i as int,
                        i + pattern@.len(),
                    ));
                }
                assert(rest.skip(1) =~= s@.skip(i + 1));
                assert(replaced(s@, pattern@, replacement@) =~= result@ + replaced(
                    s@.skip(i + 1),
                    pattern@,
                    replacement@,
                ));
            }
            i = i + 1;
        }
    }
    assert(result@ + replaced(s@.skip(i as int), pattern@, replacement@) =~= result@);
    result
}

/// `s` without the occurrences of `c` at its end.
pub open spec fn trimmed_end(s: Seq<char>, c: char) -> Seq<char>
    decreases s.len(),
{
    if s.len() > 0 && s.last() == c {
        trimmed_end(s.drop_last(), c)
    } else {
        s
    }
}

/// Removes the occurrences of `c` at the end of `s`.
pub fn trim_end(s: &str, c: char) -> (result: String)
    ensures
        result@ == trimmed_end(s@, c),
{
    let chars = to_chars(s);
    let mut n: usize = chars.len();
    assert(s@.take(n as int) =~= s@);
    while n > 0 && chars[n - 1] == c
        invariant
            chars@ == s@,
            n <= chars@.len(),
            trimmed_end(s@, c) == trimmed_end(s@.take(n as int), c),
        decreases n,
    {
        proof {
            assert(s@.take(n as int).drop_last() =~= s@.take(n - 1));
        }
        n = n - 1;
    }
    assert(s@.subrange(0, n as int) =~= s@.take(n as int));
    from_chars(&chars, 0, n)
}

/// What is left of `s` begins `s`, the rest is `c`, and it does not end in `c`.
pub proof fn trimmed_end_is_trimmed(s: Seq<char>, c: char)
    ensures
        trimmed_end(s, c).is_prefix_of(s),
        forall|i: int| trimmed_end(s, c).len() <= i < s.len() ==> s[i] == c,
        trimmed_end(s, c).len() > 0 ==> trimmed_end(s, c).last() != c,
    decreases s.len(),
{
    if s.len() > 0 && s.last() == c {
        trimmed_end_is_trimmed(s.drop_last(), c);
        let t = trimmed_end(s.drop_last(), c);
        assert forall|i: int| t.len() <= i < s.len() implies s[i] == c by {
            if i < s.len() - 1 {
                assert(s.drop_last()[i] == c);
            }
        }
        assert(t =~= s.take(t.len() as int));
    } else {
        assert(s =~= s.take(s.len() as int));
    }
}

/// The decimal digit for a number below ten.
pub open spec fn digit(n: nat) -> char {
    (48 + n) as char
}

/// A number in decimal notation.
pub open spec fn decimal(n: nat) -> Seq<char>
    decreases n,
{
    if n < 10 {
        seq![digit(n)]
    } else {
        decimal(n / 10).push(digit(n % 10))
    }
}

/// Writes a number in decimal notation.
pub fn to_decimal(n: u16) -> (s: String)
    ensures
        s@ == decimal(n as nat),
    decreases n,
{
    let last: char = (48 + (n % 10) as u8) as char;
    if n < 10 {
        let mut s = String::new();
        s.push(last);
        assert(s@ =~= seq![digit(n as nat)]);
        s
    } else {
        let mut s = to_decimal(n / 10);
        s.push(last);
        s
    }
}

/// Different numbers have different notations.
pub proof fn decimal_is_injective(m: nat, n: nat)
    requires
        decimal(m) == decimal(n),
    ensures
        m == n,
    decreases m,
{
    decimal_is_not_empty(m / 10);
    decimal_is_not_empty(n / 10);
    assert(decimal(m).last() == digit(m % 10));
    assert(decimal(n).last() == digit(n % 10));
    assert(m % 10 == n % 10) by {
        assert(digit(m % 10) as nat == 48 + m % 10);
        assert(digit(n % 10) as nat == 48 + n % 10);
    }
    if m >= 10 && n >= 10 {
        assert(decimal(m).drop_last() =~= decimal(m / 10));
        assert(decimal(n).drop_last() =~= decimal(n / 10));
        decimal_is_injective(m / 10, n / 10);
    } else if m >= 10 {
        assert(decimal(m).len() > 1);
    } else if n >= 10 {
        assert(decimal(n).len() > 1);
    }
}

/// A notation has at least one digit.
proof fn decimal_is_not_empty(n: nat)
    ensures
        decimal(n).len() > 0,
    decreases n,
{
    if n >= 10 {
        decimal_is_not_empty(n / 10);
    }
}

/// A character as it stands in a string literal.
pub open spec fn escaped_char(c: char) -> Seq<char> {
    if c == '"' {
        seq!['\\', '"']
    } else if c == '\\' {
        seq!['\\', '\\']
    } else if c == '\n' {
        seq!['\\', 'n']
    } else if c == '\r' {
        seq!['\\', 'r']
    } else if c == '\0' {
        seq!['\\', '0']
    } else {
        seq![c]
    }
}

/// A text as it stands between the quotes of a string literal.
pub open spec fn escaped(s: Seq<char>) -> Seq<char>
    decreases s.len(),
{
    if s.len() == 0 {
        Seq::empty()
    } else {
        escaped(s.drop_last()) + escaped_char(s.last())
    }
}

/// The string literal that denotes a text.
pub open spec fn literal(s: Seq<char>) -> Seq<char> {
    seq!['"'] + escaped(s) + seq!['"']
}

/// Writes the string literal that denotes a text.
pub fn to_literal(s: &str) -> (result: String)
    ensures
        result@ == literal(s@),
{
    let chars = to_chars(s);
    let mut result = String::new();
    result.push('"');
    assert(result@ =~= seq!['"'] + escaped(s@.take(0)));
    let mut i: usize = 0;
    while i < chars.len()
        invariant
            chars@ == s@,
            i <= chars@.len(),
            result@ == seq!['"'] + escaped(s@.take(i as int)),
        decreases chars.len() - i,
    {
        let c = chars[i];
        let ghost before = result@;
        if c == '"' {
            result.push('\\');
            result.push('"');
        } else if c == '\\' {
            result.push('\\');
            result.push('\\');
        } else if c == '\n' {
            result.push('\\');
            result.push('n');
        } else if c == '\r' {
            result.push('\\');
            result.push('r');
        } else if c == '\0' {
            result.push('\\');
            result.push('0');
        } else {
            result.push(c);
        }
        proof {
            assert(result@ =~= before + escaped_char(c));
            assert(s@.take(i + 1).drop_last() =~= s@.take(i as int));
            assert(result@ =~= seq!['"'] + escaped(s@.take(i + 1)));
        }
        i = i + 1;
    }
    assert(s@.take(i as int) =~= s@);
    result.push('"');
    assert(result@ =~= literal(s@));
    result
}

/// The character that a letter behind a backslash stands for, if it alone makes
/// an escape.
pub open spec fn simple_escape(c: char) -> Option<char> {
    if c == 'n' {
        Some('\n')
    } else if c == 'r' {
        Some('\r')
    } else if c == 't' {
        Some('\t')
    } else if c == '0' {
        Some('\0')
    } else if c == '\\' || c == '\'' || c == '"' {
        Some(c)
    } else {
        None
    }
}

/// The value of a hexadecimal digit.
pub open spec fn hex_digit(c: char) -> Option<nat> {
    if '0' <= c <= '9' {
        Some((c as nat - '0' as nat) as nat)
    } else if 'a' <= c <= 'f' {
        Some((c as nat - 'a' as nat + 10) as nat)
    } else if 'A' <= c <= 'F' {
        Some((c as nat - 'A' as nat + 10) as nat)
    } else {
        None
    }
}

/// The number of hexadecimal digits that a text begins with.
pub open spec fn hex_len(s: Seq<char>) -> nat
    decreases s.len(),
{
    if s.len() > 0 && hex_digit(s[0]) is Some {
        1 + hex_len(s.skip(1))
    } else {
        0
    }
}

/// The value of hexadecimal digits.
pub open spec fn hex_value(s: Seq<char>) -> nat
    decreases s.len(),
{
    if s.len() == 0 {
        0
    } else {
        16 * hex_value(s.drop_last()) + hex_digit(s.last()).unwrap()
    }
}

/// Whether a number is that of a character.
pub open spec fn is_scalar(n: nat) -> bool {
    n < 0xd800 || 0xe000 <= n < 0x11_0000
}

/// The escape that a text begins with: the character that it stands for and
/// the number of its characters. These are the escapes of one letter, `\x` with
/// two hexadecimal digits and `\u` with one to six of them in braces.
pub open spec fn escape(s: Seq<char>) -> Option<(char, nat)> {
    if s.len() < 2 || s[0] != '\\' {
        None
    } else if simple_escape(s[1]) is Some {
        Some((simple_escape(s[1]).unwrap(), 2))
    } else if s[1] == 'x' {
        if hex_len(s.skip(2)) >= 2 && hex_value(s.subrange(2, 4)) < 0x80 {
            Some((hex_value(s.subrange(2, 4)) as char, 4))
        } else {
            None
        }
    } else if s[1] == 'u' && s.len() >= 3 && s[2] == '{' {
        let n = hex_len(s.skip(3)) as int;
        if 1 <= n <= 6 && n + 3 < s.len() && s[n + 3] == '}' && is_scalar(
            hex_value(s.subrange(3, n + 3)),
        ) {
            Some((hex_value(s.subrange(3, n + 3)) as char, (n + 4) as nat))
        } else {
            None
        }
    } else {
        None
    }
}

/// What stands between the quotes of a string literal denotes: its escapes what
/// they stand for, any other character itself. `None` if there is a quote, a
/// carriage return or a backslash that begins no such escape.
pub open spec fn denoted(s: Seq<char>) -> Option<Seq<char>>
    decreases s.len(),
{
    if s.len() == 0 {
        Some(Seq::empty())
    } else if s[0] == '\\' {
        match escape(s) {
            Some((c, n)) => if 0 < n <= s.len() {
                match denoted(s.skip(n as int)) {
                    Some(rest) => Some(seq![c] + rest),
                    None => None,
                }
            } else {
                None
            },
            None => None,
        }
    } else if s[0] == '"' || s[0] == '\r' {
        None
    } else {
        match denoted(s.skip(1)) {
            Some(rest) => Some(seq![s[0]] + rest),
            None => None,
        }
    }
}

/// The number of hash signs that a text begins with.
pub open spec fn hash_len(s: Seq<char>) -> nat
    decreases s.len(),
{
    if s.len() > 0 && s[0] == '#' {
        1 + hash_len(s.skip(1))
    } else {
        0
    }
}

/// What a raw string literal denotes: what stands between its quotes, with as
/// many hash signs before as behind. `None` if there is another quote or a
/// carriage return in it.
pub open spec fn raw_value(s: Seq<char>) -> Option<Seq<char>> {
    let n = hash_len(s.skip(1)) as int;
    let content = s.subrange(n + 2, s.len() - n - 1);
    if s.len() >= 2 * n + 3 && n <= 255 && s[0] == 'r' && s[n + 1] == '"' && s[s.len() - n - 1]
        == '"' && (forall|i: int| s.len() - n <= i < s.len() ==> s[i] == '#')
        && !content.contains('"') && !content.contains('\r') {
        Some(content)
    } else {
        None
    }
}

/// What a string literal denotes.
pub open spec fn string_value(s: Seq<char>) -> Option<Seq<char>> {
    if s.len() >= 2 && s[0] == '"' && s.last() == '"' {
        denoted(s.subrange(1, s.len() - 1))
    } else if s.len() > 0 && s[0] == 'r' {
        raw_value(s)
    } else {
        None
    }
}

/// The text behind a character in a string literal does not change what the
/// character denotes.
proof fn denoted_of_escaped_char(c: char, rest: Seq<char>)
    requires
        denoted(rest) is Some,
    ensures
        denoted(escaped_char(c) + rest) == Some(seq![c] + denoted(rest).unwrap()),
{
    let t = escaped_char(c) + rest;
    assert(t.skip(escaped_char(c).len() as int) =~= rest);
}

/// An escaped text followed by more.
proof fn denoted_of_escaped(s: Seq<char>, rest: Seq<char>)
    requires
        denoted(rest) is Some,
    ensures
        denoted(escaped(s) + rest) == Some(s + denoted(rest).unwrap()),
    decreases s.len(),
{
    let value = denoted(rest).unwrap();
    if s.len() > 0 {
        let tail = escaped_char(s.last()) + rest;
        denoted_of_escaped_char(s.last(), rest);
        denoted_of_escaped(s.drop_last(), tail);
        assert(escaped(s) + rest =~= escaped(s.drop_last()) + tail);
        assert(s + value =~= s.drop_last() + (seq![s.last()] + value));
    } else {
        assert(escaped(s) + rest =~= rest);
        assert(s + value =~= value);
    }
}

/// A string literal denotes the text that it was written for.
pub proof fn literal_denotes_its_text(s: Seq<char>)
    ensures
        string_value(literal(s)) == Some(s),
{
    denoted_of_escaped(s, Seq::empty());
    assert(literal(s).subrange(1, literal(s).len() - 1) =~= escaped(s) + Seq::<char>::empty());
    assert(s + Seq::<char>::empty() =~= s);
}

/// The texts of strings are their characters, string by string.
pub proof fn texts_are_the_strings(strings: Seq<String>)
    ensures
        texts(strings).len() == strings.len(),
        forall|i: int| 0 <= i < strings.len() ==> #[trigger] texts(strings)[i] == strings[i]@,
{
}

/// A pattern stands where it was put.
pub proof fn pattern_stands_where_it_was_put(a: Seq<char>, pattern: Seq<char>, b: Seq<char>)
    ensures
        occurs_at(a + pattern + b, pattern, a.len() as int),
        has_substring(a + pattern + b, pattern),
{
    let s = a + pattern + b;
    assert(s.subrange(a.len() as int, a.len() as int + pattern.len()) =~= pattern);
    assert(occurs_at(s, pattern, a.len() as int));
}

/// Where a pattern stands, the text is what is before it, the pattern and what
/// is behind it.
pub proof fn text_around_a_pattern(s: Seq<char>, pattern: Seq<char>, i: int)
    requires
        occurs_at(s, pattern, i),
    ensures
        0 <= i,
        i + pattern.len() <= s.len(),
        s == s.take(i) + pattern + s.skip(i + pattern.len()),
{
    assert(s =~= s.take(i) + s.subrange(i, i + pattern.len()) + s.skip(i + pattern.len()));
}

/// A pattern is found in a text only if the text is something, the pattern and
/// something more.
pub proof fn found_pattern_is_there(s: Seq<char>, pattern: Seq<char>) -> (parts: (
    Seq<char>,
    Seq<char>,
))
    requires
        has_substring(s, pattern),
    ensures
        s == parts.0 + pattern + parts.1,
{
    let i = choose|i: int| occurs_at(s, pattern, i);
    text_around_a_pattern(s, pattern, i);
    (s.take(i), s.skip(i + pattern.len()))
}

/// A text without the pattern is left as it is.
pub proof fn nothing_to_replace(s: Seq<char>, pattern: Seq<char>, replacement: Seq<char>)
    requires
        pattern.len() > 0,
        forall|i: int| !occurs_at(s, pattern, i),
    ensures
        replaced(s, pattern, replacement) == s,
    decreases s.len(),
{
    if s.len() > 0 {
        let rest = s.skip(1);
        assert(!occurs_at(s, pattern, 0));
        assert forall|i: int| !occurs_at(rest, pattern, i) by {
            if occurs_at(rest, pattern, i) {
                assert(s.subrange(i + 1, i + 1 + pattern.len()) =~= rest.subrange(
                    i,
                    i + pattern.len(),
                ));
                assert(occurs_at(s, pattern, i + 1));
            }
        }
        nothing_to_replace(rest, pattern, replacement);
        assert(seq![s[0]] + rest =~= s);
    }
}

/// The first occurrence of a pattern is replaced, what is before it stays, and
/// behind it the replacing goes on.
pub proof fn first_occurrence_is_replaced(
    before: Seq<char>,
    rest: Seq<char>,
    pattern: Seq<char>,
    replacement: Seq<char>,
)
    requires
        pattern.len() > 0,
        forall|i: int| 0 <= i < before.len() ==> !occurs_at(before + pattern + rest, pattern, i),
    ensures
        replaced(before + pattern + rest, pattern, replacement) == before + replacement + replaced(
            rest,
            pattern,
            replacement,
        ),
    decreases before.len(),
{
    let s = before + pattern + rest;
    if before.len() == 0 {
        pattern_stands_where_it_was_put(before, pattern, rest);
        assert(s.skip(pattern.len() as int) =~= rest);
        assert(before + replacement =~= replacement);
    } else {
        let less = before.skip(1);
        let t = less + pattern + rest;
        assert(s.skip(1) =~= t);
        assert(!occurs_at(s, pattern, 0));
        assert forall|i: int| 0 <= i < less.len() implies !occurs_at(t, pattern, i) by {
            if occurs_at(t, pattern, i) {
                assert(s.subrange(i + 1, i + 1 + pattern.len()) =~= t.subrange(
                    i,
                    i + pattern.len(),
                ));
                assert(occurs_at(s, pattern, i + 1));
            }
        }
        first_occurrence_is_replaced(less, rest, pattern, replacement);
        assert(seq![s[0]] + (less + replacement + replaced(rest, pattern, replacement)) =~= before
            + replacement + replaced(rest, pattern, replacement));
    }
}

/// The number that decimal digits stand for.
pub open spec fn number_of(digits: Seq<char>) -> nat
    decreases digits.len(),
{
    if digits.len() == 0 {
        0
    } else {
        10 * number_of(digits.drop_last()) + (digits.last() as nat - '0' as nat) as nat
    }
}

/// The notation of a number is decimal digits that stand for it, without a
/// needless zero in front.
pub proof fn decimal_stands_for_its_number(n: nat)
    ensures
        number_of(decimal(n)) == n,
        decimal(n).len() > 0,
        forall|i: int| 0 <= i < decimal(n).len() ==> '0' <= #[trigger] decimal(n)[i] <= '9',
        n > 0 ==> decimal(n)[0] != '0',
    decreases n,
{
    if n < 10 {
        assert(decimal(n).drop_last() =~= Seq::empty());
        assert(digit(n) as nat == 48 + n);
        reveal_with_fuel(number_of, 2);
    } else {
        decimal_stands_for_its_number(n / 10);
        assert(decimal(n).drop_last() =~= decimal(n / 10));
        assert(digit(n % 10) as nat == 48 + n % 10);
    }
}

/// A text without quotes, backslashes, line ends and null characters stands in
/// its literal as it is.
pub proof fn plain_text_stands_in_its_literal(s: Seq<char>)
    requires
        forall|i: int|
            0 <= i < s.len() ==> #[trigger] s[i] != '"' && s[i] != '\\' && s[i] != '\n' && s[i]
                != '\r' && s[i] != '\0',
    ensures
        literal(s) == seq!['"'] + s + seq!['"'],
{
    plain_text_is_not_escaped(s);
}

/// A text without special characters is not escaped.
proof fn plain_text_is_not_escaped(s: Seq<char>)
    requires
        forall|i: int|
            0 <= i < s.len() ==> #[trigger] s[i] != '"' && s[i] != '\\' && s[i] != '\n' && s[i]
                != '\r' && s[i] != '\0',
    ensures
        escaped(s) == s,
    decreases s.len(),
{
    if s.len() > 0 {
        let before = s.drop_last();
        assert forall|i: int| 0 <= i < before.len() implies #[trigger] before[i] != '"' && before[i]
            != '\\' && before[i] != '\n' && before[i] != '\r' && before[i] != '\0' by {
            assert(before[i] == s[i]);
        }
        plain_text_is_not_escaped(before);
        assert(s[s.len() - 1] == s.last());
        assert(before + seq![s.last()] =~= s);
    }
}

} // verus!
