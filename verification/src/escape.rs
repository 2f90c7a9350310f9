//! The text of character, string and byte string literals.

use vstd::prelude::*;
use vstd::string::StringExecFns;

use crate::text::chars_of;

verus! {

/// A lower-case hexadecimal digit.
pub open spec fn hex_char(d: u8) -> char {
    if d < 10 {
        ('0' as u8 + d) as char
    } else {
        ('a' as u8 + (d - 10)) as char
    }
}

/// How a byte is written inside a byte string literal: tab, carriage return,
/// line feed, quotes and backslash behind a backslash, other printable ASCII
/// as it is, and the rest as two hexadecimal digits.
pub open spec fn escaped_byte(byte: u8) -> Seq<char> {
    if byte == 0x09 {
        seq!['\\', 't']
    } else if byte == 0x0a {
        seq!['\\', 'n']
    } else if byte == 0x0d {
        seq!['\\', 'r']
    } else if byte == 0x22 || byte == 0x27 || byte == 0x5c {
        seq!['\\', byte as char]
    } else if 0x20 <= byte <= 0x7e {
        seq![byte as char]
    } else {
        seq!['\\', 'x', hex_char(byte / 16), hex_char(byte % 16)]
    }
}

/// How a run of bytes is written inside a byte string literal.
pub open spec fn escaped_bytes(bytes: Seq<u8>) -> Seq<char> {
    bytes.flat_map(|byte: u8| escaped_byte(byte))
}

/// The text of a byte string literal.
pub open spec fn byte_string_literal(bytes: Seq<u8>) -> Seq<char> {
    seq!['b', '"'] + escaped_bytes(bytes) + seq!['"']
}

fn hex_digit(d: u8) -> (c: char)
    requires
        d < 16,
    ensures
        c == hex_char(d),
{
    if d < 10 {
        (48 + d) as char
    } else {
        (97 + (d - 10)) as char
    }
}

fn push_escaped_byte(text: &mut String, byte: u8)
    ensures
        final(text)@ == old(text)@ + escaped_byte(byte),
{
    if byte == 0x09 {
        text.push('\\');
        text.push('t');
    } else if byte == 0x0a {
        text.push('\\');
        text.push('n');
    } else if byte == 0x0d {
        text.push('\\');
        text.push('r');
    } else if byte == 0x22 || byte == 0x27 || byte == 0x5c {
        text.push('\\');
        text.push(byte as char);
    } else if 0x20 <= byte && byte <= 0x7e {
        text.push(byte as char);
    } else {
        text.push('\\');
        text.push('x');
        text.push(hex_digit(byte / 16));
        text.push(hex_digit(byte % 16));
    }
    assert(text@ =~= old(text)@ + escaped_byte(byte));
}

/// Writes bytes as the text of a byte string literal.
pub fn byte_string_text(bytes: &[u8]) -> (text: String)
    ensures
        text@ == byte_string_literal(bytes@),
{
    let mut text = String::new();
    text.push('b');
    text.push('"');
    assert(bytes@.take(0).map_values(|byte: u8| escaped_byte(byte)) =~= seq![]);
    assert(text@ =~= seq!['b', '"'] + escaped_bytes(bytes@.take(0)));
    let mut i: usize = 0;
    while i < bytes.len()
        invariant
            i <= bytes.len(),
            text@ == seq!['b', '"'] + escaped_bytes(bytes@.take(i as int)),
        decreases bytes.len() - i,
    {
        push_escaped_byte(&mut text, bytes[i]);
        proof {
            bytes@.lemma_flat_map_take_append(|byte: u8| escaped_byte(byte), i as int);
        }
        assert(text@ =~= seq!['b', '"'] + escaped_bytes(bytes@.take(i + 1)));
        i += 1;
    }
    assert(bytes@.take(bytes@.len() as int) =~= bytes@);
    text.push('"');
    assert(text@ =~= byte_string_literal(bytes@));
    text
}

/// How `char::escape_debug` writes a character.
pub uninterp spec fn debug_escape(ch: char) -> Seq<char>;

/// `char::escape_debug` yields the escape code of a character, as the `Debug`
/// rendering of text has it. What that is follows from the character alone and
/// from Unicode's tables; it bears the name `debug_escape`. Left unsaid:
/// which characters are escaped, quotes among them, and that the escapes of
/// different characters differ.
#[verifier::external_body]
fn escape_debug(ch: char) -> (escaped: String)
    ensures
        escaped@ == debug_escape(ch),
{
    ch.escape_debug().to_string()
}

/// The text of a string literal whose characters are written as `escapes`.
pub open spec fn quoted(escapes: Seq<Seq<char>>) -> Seq<char> {
    seq!['"'] + escapes.flatten() + seq!['"']
}

/// The text of a string literal.
pub open spec fn string_literal(string: Seq<char>) -> Seq<char> {
    quoted(string.map_values(|ch: char| debug_escape(ch)))
}

/// Puts the escapes of a string's characters between quotes.
pub fn quote(escapes: &Vec<String>) -> (text: String)
    ensures
        text@ == quoted(escapes@.map_values(|escape: String| escape@)),
{
    let ghost views = escapes@.map_values(|escape: String| escape@);
    let mut text = String::new();
    text.push('"');
    assert(views.take(0) =~= seq![]);
    assert(text@ =~= seq!['"'] + views.take(0).flatten());
    let mut i: usize = 0;
    while i < escapes.len()
        invariant
            i <= escapes.len(),
            views == escapes@.map_values(|escape: String| escape@),
            text@ == seq!['"'] + views.take(i as int).flatten(),
        decreases escapes.len() - i,
    {
        text.append(escapes[i].as_str());
        proof {
            assert(views.take(i + 1) =~= views.take(i as int).push(views[i as int]));
            views.take(i as int).lemma_flatten_push(views[i as int]);
        }
        assert(text@ =~= seq!['"'] + views.take(i + 1).flatten());
        i += 1;
    }
    assert(views.take(escapes@.len() as int) =~= views);
    text.push('"');
    assert(text@ =~= quoted(views));
    text
}

/// Writes a string as the text of a string literal.
pub fn string_text(string: &str) -> (text: String)
    ensures
        text@ == string_literal(string@),
{
    let chars = chars_of(string);
    let mut escapes: Vec<String> = Vec::new();
    let mut i: usize = 0;
    while i < chars.len()
        invariant
            i <= chars.len(),
            escapes.len() == i,
            forall|j: int| 0 <= j < i ==> (#[trigger] escapes@[j])@ == debug_escape(chars@[j]),
        decreases chars.len() - i,
    {
        escapes.push(escape_debug(chars[i]));
        i += 1;
    }
    assert(escapes@.map_values(|escape: String| escape@) =~= string@.map_values(
        |ch: char| debug_escape(ch),
    ));
    quote(&escapes)
}

/// The text of a character literal. The character stands in it as it is.
pub open spec fn character_literal(ch: char) -> Seq<char> {
    seq!['\'', ch, '\'']
}

/// Writes a character as the text of a character literal.
pub fn character_text(ch: char) -> (text: String)
    ensures
        text@ == character_literal(ch),
{
    let mut text = String::new();
    text.push('\'');
    text.push(ch);
    text.push('\'');
    assert(text@ =~= character_literal(ch));
    text
}

proof fn lemma_escaped_bytes_front(bytes: Seq<u8>)
    requires
        bytes.len() > 0,
    ensures
        escaped_bytes(bytes) == escaped_byte(bytes[0]) + escaped_bytes(bytes.drop_first()),
{
    let escape = |byte: u8| escaped_byte(byte);
    assert(bytes.map_values(escape).drop_first() =~= bytes.drop_first().map_values(escape));
}

/// Where one escaped byte starts a text, it is the only one that does.
proof fn lemma_escaped_byte_is_prefix_code(a: u8, rest_a: Seq<char>, b: u8, rest_b: Seq<char>)
    requires
        escaped_byte(a) + rest_a == escaped_byte(b) + rest_b,
    ensures
        a == b,
        rest_a == rest_b,
{
    let text = escaped_byte(a) + rest_a;
    let other = escaped_byte(b) + rest_b;
    assert(text[0] == escaped_byte(a)[0]);
    assert(other[0] == escaped_byte(b)[0]);
    if text[0] == '\\' {
        assert(text[1] == escaped_byte(a)[1]);
        assert(other[1] == escaped_byte(b)[1]);
        if text[1] == 'x' {
            assert(text[2] == escaped_byte(a)[2]);
            assert(other[2] == escaped_byte(b)[2]);
            assert(text[3] == escaped_byte(a)[3]);
            assert(other[3] == escaped_byte(b)[3]);
            assert(a / 16 == b / 16 && a % 16 == b % 16);
        }
    }
    assert(a == b);
    let n = escaped_byte(a).len() as int;
    assert(rest_a =~= text.skip(n));
    assert(rest_b =~= other.skip(n));
}

proof fn lemma_escaped_bytes_injective(a: Seq<u8>, b: Seq<u8>)
    requires
        escaped_bytes(a) == escaped_bytes(b),
    ensures
        a == b,
    decreases a.len(),
{
    if a.len() > 0 {
        lemma_escaped_bytes_front(a);
    }
    if b.len() > 0 {
        lemma_escaped_bytes_front(b);
    }
    if a.len() > 0 && b.len() > 0 {
        lemma_escaped_byte_is_prefix_code(
            a[0],
            escaped_bytes(a.drop_first()),
            b[0],
            escaped_bytes(b.drop_first()),
        );
        lemma_escaped_bytes_injective(a.drop_first(), b.drop_first());
        assert(a =~= seq![a[0]] + a.drop_first());
        assert(b =~= seq![b[0]] + b.drop_first());
    } else {
        assert(a.len() == 0 ==> escaped_bytes(a).len() == 0);
        assert(b.len() == 0 ==> escaped_bytes(b).len() == 0);
        assert(a =~= b);
    }
}

/// A byte string literal tells which bytes it was made of.
pub proof fn byte_string_literal_is_injective(a: Seq<u8>, b: Seq<u8>)
    requires
        byte_string_literal(a) == byte_string_literal(b),
    ensures
        a == b,
{
    let text = byte_string_literal(a);
    let other = byte_string_literal(b);
    assert(escaped_bytes(a) =~= text.subrange(2, text.len() - 1));
    assert(escaped_bytes(b) =~= other.subrange(2, other.len() - 1));
    lemma_escaped_bytes_injective(a, b);
}

pub open spec fn is_printable_ascii(c: char) -> bool {
    ' ' <= c <= '~'
}

proof fn lemma_escaped_bytes_printable(bytes: Seq<u8>, i: int)
    requires
        0 <= i < escaped_bytes(bytes).len(),
    ensures
        is_printable_ascii(escaped_bytes(bytes)[i]),
    decreases bytes.len(),
{
    if bytes.len() == 0 {
        assert(escaped_bytes(bytes).len() == 0);
    } else {
        lemma_escaped_bytes_front(bytes);
        let n = escaped_byte(bytes[0]).len() as int;
        if i >= n {
            lemma_escaped_bytes_printable(bytes.drop_first(), i - n);
        }
    }
}

/// A byte string literal is printable ASCII, whatever bytes it was made of.
pub proof fn byte_string_literal_is_printable(bytes: Seq<u8>)
    ensures
        forall|i: int|
            0 <= i < byte_string_literal(bytes).len() ==> is_printable_ascii(
                #[trigger] byte_string_literal(bytes)[i],
            ),
{
    assert forall|i: int| 0 <= i < byte_string_literal(bytes).len() implies is_printable_ascii(
        #[trigger] byte_string_literal(bytes)[i],
    ) by {
        let n = escaped_bytes(bytes).len() as int;
        if 2 <= i < n + 2 {
            lemma_escaped_bytes_printable(bytes, i - 2);
        }
    }
}

/// Bytes are escaped each on its own: those of two runs, one after the other,
/// are written as the one and then the other.
pub proof fn escaped_bytes_piecewise(a: Seq<u8>, b: Seq<u8>)
    ensures
        escaped_bytes(a + b) == escaped_bytes(a) + escaped_bytes(b),
{
    let escape = |byte: u8| escaped_byte(byte);
    assert((a + b).map_values(escape) =~= a.map_values(escape) + b.map_values(escape));
    vstd::seq_lib::lemma_flatten_concat(a.map_values(escape), b.map_values(escape));
}

/// How a run of characters is written inside a string literal.
pub open spec fn escaped_chars(string: Seq<char>) -> Seq<char> {
    string.flat_map(|ch: char| debug_escape(ch))
}

/// Characters are escaped each on its own: a string literal has quotes around
/// the escapes of its characters, and those of two strings, one after the other,
/// are written as the one and then the other.
pub proof fn string_literal_piecewise(a: Seq<char>, b: Seq<char>)
    ensures
        string_literal(a) == seq!['"'] + escaped_chars(a) + seq!['"'],
        escaped_chars(a + b) == escaped_chars(a) + escaped_chars(b),
        string_literal(a + b) == seq!['"'] + escaped_chars(a) + escaped_chars(b) + seq!['"'],
{
    let escape = |ch: char| debug_escape(ch);
    assert((a + b).map_values(escape) =~= a.map_values(escape) + b.map_values(escape));
    vstd::seq_lib::lemma_flatten_concat(a.map_values(escape), b.map_values(escape));
    assert(string_literal(a + b) =~= seq!['"'] + escaped_chars(a) + escaped_chars(b) + seq!['"']);
}

/// A character literal tells which character it was made of.
pub proof fn character_literal_is_injective(a: char, b: char)
    requires
        character_literal(a) == character_literal(b),
    ensures
        a == b,
{
    assert(character_literal(a)[1] == a);
    assert(character_literal(b)[1] == b);
}

/// The literal of a one-character string is the escape of that character
/// between quotes, whatever the character; that of the empty string is quotes.
pub proof fn string_literal_of_one(ch: char)
    ensures
        string_literal(seq![ch]) == seq!['"'] + debug_escape(ch) + seq!['"'],
        string_literal(Seq::<char>::empty()) == seq!['"', '"'],
{
    let escape = |ch: char| debug_escape(ch);
    assert(seq![ch].map_values(escape) =~= seq![debug_escape(ch)]);
    quoted_joins(seq![], seq![], debug_escape(ch));
    assert(Seq::<char>::empty().map_values(escape) =~= seq![]);
}

/// The literal of two strings, one after the other, is the literal of the one
/// without its closing quote and then that of the other without its opening
/// quote.
pub proof fn string_literal_joins(a: Seq<char>, b: Seq<char>)
    ensures
        string_literal(a + b) == string_literal(a).drop_last() + string_literal(b).drop_first(),
{
    let escape = |ch: char| debug_escape(ch);
    assert((a + b).map_values(escape) =~= a.map_values(escape) + b.map_values(escape));
    quoted_joins(a.map_values(escape), b.map_values(escape), seq![]);
}

/// The literal of a string holds the escape of each of its characters.
pub proof fn string_literal_loses_no_character(string: Seq<char>, i: int)
    requires
        0 <= i < string.len(),
    ensures
        exists|before: Seq<char>, after: Seq<char>|
            string_literal(string) == #[trigger] (before + debug_escape(string[i]) + after),
{
    let a = string.take(i);
    let c = seq![string[i]];
    let b = string.skip(i + 1);
    assert(string =~= a + c + b);
    string_literal_joins(a + c, b);
    string_literal_joins(a, c);
    string_literal_of_one(string[i]);
    let before = string_literal(a).drop_last();
    let after = string_literal(b).drop_first();
    assert(string_literal(c).drop_first().drop_last() =~= debug_escape(string[i]));
    assert(string_literal(string) =~= before + debug_escape(string[i]) + after);
}

/// Escapes are put between quotes all of them, one after the other.
pub proof fn quoted_joins(a: Seq<Seq<char>>, b: Seq<Seq<char>>, escape: Seq<char>)
    ensures
        quoted(a + b) == quoted(a).drop_last() + quoted(b).drop_first(),
        quoted(seq![escape]) == seq!['"'] + escape + seq!['"'],
        quoted(Seq::<Seq<char>>::empty()) == seq!['"', '"'],
{
    vstd::seq_lib::lemma_flatten_concat(a, b);
    assert(quoted(a + b) =~= quoted(a).drop_last() + quoted(b).drop_first());
    seq![escape].lemma_flatten_one_element();
    assert(Seq::<Seq<char>>::empty().flatten() =~= seq![]);
    assert(quoted(Seq::<Seq<char>>::empty()) =~= seq!['"', '"']);
}

/// A byte can be read off its escape: printable ASCII other than quotes and
/// backslash is itself, those three stand behind a backslash, tab, line feed and
/// carriage return are letters behind one, and any other byte is the number that
/// two lower-case hexadecimal digits write.
pub proof fn escaped_byte_reads_back(byte: u8)
    ensures
        ({
            let escape = escaped_byte(byte);
            let marked = byte == 0x22 || byte == 0x27 || byte == 0x5c;
            let lettered = byte == 0x09 || byte == 0x0a || byte == 0x0d;
            &&& (0x20 <= byte <= 0x7e && !marked) ==> escape.len() == 1 && escape[0] as int == byte
            &&& marked ==> escape.len() == 2 && escape[0] == '\\' && escape[1] as int == byte
            &&& byte == 0x09 ==> escape == seq!['\\', 't']
            &&& byte == 0x0a ==> escape == seq!['\\', 'n']
            &&& byte == 0x0d ==> escape == seq!['\\', 'r']
            &&& (!lettered && !(0x20 <= byte <= 0x7e)) ==> {
                &&& escape.len() == 4
                &&& escape[0] == '\\'
                &&& escape[1] == 'x'
                &&& '0' <= escape[2] <= '9' || 'a' <= escape[2] <= 'f'
                &&& '0' <= escape[3] <= '9' || 'a' <= escape[3] <= 'f'
                &&& byte == 16 * (if escape[2] <= '9' {
                    escape[2] as int - 0x30
                } else {
                    escape[2] as int - 0x57
                }) + (if escape[3] <= '9' {
                    escape[3] as int - 0x30
                } else {
                    escape[3] as int - 0x57
                })
            }
        }),
{
    assert(byte == 16 * (byte / 16) + byte % 16);
}

/// The literal of a run of bytes is `b` and the escapes of all of them, one
/// after the other, between quotes.
pub proof fn byte_string_literal_joins(a: Seq<u8>, b: Seq<u8>, byte: u8)
    ensures
        byte_string_literal(a + b) == byte_string_literal(a).drop_last() + byte_string_literal(
            b,
        ).skip(2),
        byte_string_literal(seq![byte]) == seq!['b', '"'] + escaped_byte(byte) + seq!['"'],
        byte_string_literal(Seq::<u8>::empty()) == seq!['b', '"', '"'],
{
    escaped_bytes_piecewise(a, b);
    assert(byte_string_literal(a + b) =~= byte_string_literal(a).drop_last()
        + byte_string_literal(b).skip(2));
    let escape = |byte: u8| escaped_byte(byte);
    seq![byte].lemma_flat_map_singleton(escape);
    assert(Seq::<u8>::empty().map_values(escape) =~= seq![]);
    assert(byte_string_literal(Seq::<u8>::empty()) =~= seq!['b', '"', '"']);
}

/// A character literal is the character as it is, between single quotes.
pub proof fn character_literal_holds_character(ch: char)
    ensures
        character_literal(ch).len() == 3,
        character_literal(ch)[0] == '\'',
        character_literal(ch)[1] == ch,
        character_literal(ch)[2] == '\'',
{
}

} // verus!
