use vstd::prelude::*;
use vstd::utf8::encode_scalar;

verus! {

/// The characters of code page 437, the character set of the first IBM PC,
/// by byte value. In place of NUL stands a small diamond, and in place of
/// the blank at 0xff a ligature, so that every byte has a visible
/// character of its own.
pub const CODEPAGE_437: [char; 256] = [
    '⋄', '☺', '☻', '♥', '♦', '♣', '♠', '•', '◘', '○', '◙', '♂', '♀', '♪', '♫', '☼',  // 00-0f
    '►', '◄', '↕', '‼', '¶', '§', '▬', '↨', '↑', '↓', '→', '←', '∟', '↔', '▲', '▼',  // 10-1f
    ' ', '!', '"', '#', '$', '%', '&', '\'', '(', ')', '*', '+', ',', '-', '.', '/',  // 20-2f
    '0', '1', '2', '3', '4', '5', '6', '7', '8', '9', ':', ';', '<', '=', '>', '?',  // 30-3f
    '@', 'A', 'B', 'C', 'D', 'E', 'F', 'G', 'H', 'I', 'J', 'K', 'L', 'M', 'N', 'O',  // 40-4f
    'P', 'Q', 'R', 'S', 'T', 'U', 'V', 'W', 'X', 'Y', 'Z', '[', '\\', ']', '^', '_',  // 50-5f
    '`', 'a', 'b', 'c', 'd', 'e', 'f', 'g', 'h', 'i', 'j', 'k', 'l', 'm', 'n', 'o',  // 60-6f
    'p', 'q', 'r', 's', 't', 'u', 'v', 'w', 'x', 'y', 'z', '{', '|', '}', '~', '⌂',  // 70-7f
    'Ç', 'ü', 'é', 'â', 'ä', 'à', 'å', 'ç', 'ê', 'ë', 'è', 'ï', 'î', 'ì', 'Ä', 'Å',  // 80-8f
    'É', 'æ', 'Æ', 'ô', 'ö', 'ò', 'û', 'ù', 'ÿ', 'Ö', 'Ü', '¢', '£', '¥', '₧', 'ƒ',  // 90-9f
    'á', 'í', 'ó', 'ú', 'ñ', 'Ñ', 'ª', 'º', '¿', '⌐', '¬', '½', '¼', '¡', '«', '»',  // a0-af
    '░', '▒', '▓', '│', '┤', '╡', '╢', '╖', '╕', '╣', '║', '╗', '╝', '╜', '╛', '┐',  // b0-bf
    '└', '┴', '┬', '├', '─', '┼', '╞', '╟', '╚', '╔', '╩', '╦', '╠', '═', '╬', '╧',  // c0-cf
    '╨', '╤', '╥', '╙', '╘', '╒', '╓', '╫', '╪', '┘', '┌', '█', '▄', '▌', '▐', '▀',  // d0-df
    'α', 'ß', 'Γ', 'π', 'Σ', 'σ', 'µ', 'τ', 'Φ', 'Θ', 'Ω', 'δ', '∞', 'φ', 'ε', '∩',  // e0-ef
    '≡', '±', '≥', '≤', '⌠', '⌡', '÷', '≈', '°', '∙', '·', '√', 'ⁿ', '²', '■', 'ﬀ',  // f0-ff
];

/// The character that is shown for `byte`.
pub open spec fn glyph_char(byte: u8) -> char {
    CODEPAGE_437[byte as int]
}

/// The bytes that are written for `byte`: its character in UTF-8.
pub open spec fn glyph_text(byte: u8) -> Seq<u8> {
    encode_scalar(glyph_char(byte) as u32)
}


/// No character of the table is a control character, and none lies beyond
/// the characters that UTF-8 encodes in three bytes.
pub proof fn lemma_glyph_char_visible(byte: u8)
    ensures
        0x20 <= glyph_char(byte) as u32,
        glyph_char(byte) as u32 != 0x7f,
        glyph_char(byte) as u32 <= 0xffff,
{
}

/// Every entry of the table is one character: between one and three bytes,
/// never empty.
pub proof fn lemma_glyph_text_len(byte: u8)
    ensures
        1 <= glyph_text(byte).len() <= 3,
{
    lemma_glyph_char_visible(byte);
    vstd::utf8::char_is_scalar(glyph_char(byte));
}

/// The UTF-8 encoding of `c`.
pub fn encode_char(c: char) -> (bytes: Vec<u8>)
    ensures
        bytes@ == encode_scalar(c as u32),
{
    let v: u32 = c as u32;
    let mut bytes: Vec<u8> = Vec::new();
    proof {
        vstd::utf8::char_is_scalar(c);
        lemma_utf8_parts(v);
    }
    if v <= 0x7f {
        bytes.push((v & 0x7f) as u8);
    } else if v <= 0x7ff {
        bytes.push(0xc0 | ((v >> 6) & 0x1f) as u8);
        bytes.push(0x80 | (v & 0x3f) as u8);
    } else if v <= 0xffff {
        bytes.push(0xe0 | ((v >> 12) & 0x0f) as u8);
        bytes.push(0x80 | ((v >> 6) & 0x3f) as u8);
        bytes.push(0x80 | (v & 0x3f) as u8);
    } else {
        bytes.push(0xf0 | ((v >> 18) & 0x07) as u8);
        bytes.push(0x80 | ((v >> 12) & 0x3f) as u8);
        bytes.push(0x80 | ((v >> 6) & 0x3f) as u8);
        bytes.push(0x80 | (v & 0x3f) as u8);
    }
    assert(bytes@ =~= encode_scalar(v));
    bytes
}

/// The pieces that the encoding is put together from fit into a byte.
proof fn lemma_utf8_parts(v: u32)
    ensures
        v & 0x7f < 0x100,
        (v >> 6) & 0x1f < 0x100,
        v & 0x3f < 0x100,
        (v >> 12) & 0x0f < 0x100,
        (v >> 6) & 0x3f < 0x100,
        (v >> 18) & 0x07 < 0x100,
        (v >> 12) & 0x3f < 0x100,
{
    assert(v & 0x7f < 0x100 && (v >> 6) & 0x1f < 0x100 && v & 0x3f < 0x100 && (v >> 12) & 0x0f
        < 0x100 && (v >> 6) & 0x3f < 0x100 && (v >> 18) & 0x07 < 0x100 && (v >> 12) & 0x3f
        < 0x100) by (bit_vector);
}

/// The characters of code page 437 as bytes of UTF-8, computed once.
pub struct AsciiRenderer {
    codepage_437_bytes: Vec<Vec<u8>>,
}

impl AsciiRenderer {
    #[verifier::type_invariant]
    spec fn well_formed(self) -> bool {
        &&& self.codepage_437_bytes@.len() == 256
        &&& forall|b: int|
            0 <= b < 256 ==> (#[trigger] self.codepage_437_bytes@[b])@ == glyph_text(b as u8)
    }

    /// The bytes that the table holds for `byte`.
    pub closed spec fn entry(&self, byte: u8) -> Seq<u8> {
        self.codepage_437_bytes@[byte as int]@
    }

    /// Encodes each of the 256 characters.
    pub fn new() -> (renderer: Self)
        ensures
            forall|byte: u8| #[trigger] renderer.entry(byte) == glyph_text(byte),
    {
        let mut table: Vec<Vec<u8>> = Vec::new();
        let mut i: usize = 0;
        while i < 256
            invariant
                i <= 256,
                table@.len() == i,
                forall|b: int| 0 <= b < i ==> (#[trigger] table@[b])@ == glyph_text(b as u8),
            decreases 256 - i,
        {
            table.push(encode_char(CODEPAGE_437[i]));
            i += 1;
        }
        Self { codepage_437_bytes: table }
    }

    /// The character of `byte` in UTF-8.
    pub fn render_bytes(&self, byte: u8) -> (bytes: &[u8])
        ensures
            bytes@ == glyph_text(byte),
            bytes@ == self.entry(byte),
            bytes@.len() > 0,
    {
        proof {
            use_type_invariant(self);
        }
        self.codepage_437_bytes[byte as usize].as_slice()
    }
}

impl Default for AsciiRenderer {
    fn default() -> (renderer: Self)
        ensures
            forall|byte: u8| #[trigger] renderer.entry(byte) == glyph_text(byte),
    {
        Self::new()
    }
}

} // verus!
