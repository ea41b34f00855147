use vstd::prelude::*;

verus! {

/// The colour in which a byte is shown.
#[derive(Clone, Copy, Debug, PartialEq, Eq, Structural)]
pub enum Color {
    /// The terminal's own colour: digits and letters.
    Reset,
    /// NUL, DEL and 0xff.
    Grey,
    /// Control characters and punctuation.
    Magenta,
    /// Whitespace.
    Green,
    /// The bytes from 0x80 to 0xfe.
    Blue,
}

/// NUL, DEL and 0xff.
pub open spec fn is_special(byte: u8) -> bool {
    byte == 0x00 || byte == 0x7f || byte == 0xff
}

/// Line feed, vertical tab, form feed, carriage return and space.
pub open spec fn is_whitespace(byte: u8) -> bool {
    byte == 0x0a || byte == 0x0b || byte == 0x0c || byte == 0x0d || byte == 0x20
}

/// The ranges of control characters and of punctuation. The whitespace bytes
/// lie inside them and are claimed first.
pub open spec fn is_symbol(byte: u8) -> bool {
    0x01 <= byte <= 0x1f || 0x21 <= byte <= 0x2f || 0x3a <= byte <= 0x40 || 0x5b <= byte <= 0x60
        || 0x7b <= byte <= 0x7e
}

/// The digits and the letters of ASCII.
pub open spec fn is_alphanumeric(byte: u8) -> bool {
    0x30 <= byte <= 0x39 || 0x41 <= byte <= 0x5a || 0x61 <= byte <= 0x7a
}

/// The bytes above ASCII, but for 0xff.
pub open spec fn is_high(byte: u8) -> bool {
    0x80 <= byte <= 0xfe
}

/// The colour of `byte`: the first of the rules that claims it decides.
pub open spec fn color_of(byte: u8) -> Color {
    if is_special(byte) {
        Color::Grey
    } else if is_whitespace(byte) {
        Color::Green
    } else if is_symbol(byte) {
        Color::Magenta
    } else if is_alphanumeric(byte) {
        Color::Reset
    } else {
        Color::Blue
    }
}

/// The escape sequence that switches the terminal to `color`.
pub open spec fn escape_of(color: Color) -> Seq<u8> {
    match color {
        Color::Reset => ByteToColor::RESET@,
        Color::Grey => ByteToColor::GREY@,
        Color::Magenta => ByteToColor::MAGENTA@,
        Color::Green => ByteToColor::GREEN@,
        Color::Blue => ByteToColor::BLUE@,
    }
}

/// The number by which a colour is told from the others.
pub open spec fn id_of(color: Color) -> u8 {
    match color {
        Color::Reset => 0,
        Color::Grey => 1,
        Color::Magenta => 2,
        Color::Green => 3,
        Color::Blue => 4,
    }
}

/// The escape sequence that is emitted for `byte`.
pub open spec fn color_escape(byte: u8) -> Seq<u8> {
    escape_of(color_of(byte))
}

/// The colour id of `byte`.
pub open spec fn color_id(byte: u8) -> u8 {
    id_of(color_of(byte))
}

/// The colours in the order in which they are first met: `Reset`, which is
/// there from the start, and then those of the bytes `0`, `1`, .. up to
/// `count - 1`.
pub open spec fn first_seen(count: nat) -> Seq<Color>
    decreases count,
{
    if count == 0 {
        seq![Color::Reset]
    } else {
        let before = first_seen((count - 1) as nat);
        let color = color_of((count - 1) as u8);
        if before.contains(color) {
            before
        } else {
            before.push(color)
        }
    }
}

/// `first_seen` without the recursion: where each colour enters.
pub open spec fn first_seen_closed(count: nat) -> Seq<Color> {
    if count == 0 {
        seq![Color::Reset]
    } else if count == 1 {
        seq![Color::Reset, Color::Grey]
    } else if count <= 0x0a {
        seq![Color::Reset, Color::Grey, Color::Magenta]
    } else if count <= 0x80 {
        seq![Color::Reset, Color::Grey, Color::Magenta, Color::Green]
    } else {
        seq![Color::Reset, Color::Grey, Color::Magenta, Color::Green, Color::Blue]
    }
}

/// Every byte falls under exactly one of the five colours, and the rules that
/// give them are, in their order of precedence, exhaustive.
pub proof fn lemma_partition(byte: u8)
    ensures
        color_of(byte) == Color::Grey <==> is_special(byte),
        color_of(byte) == Color::Green <==> is_whitespace(byte),
        color_of(byte) == Color::Magenta <==> is_symbol(byte) && !is_whitespace(byte),
        color_of(byte) == Color::Reset <==> is_alphanumeric(byte),
        color_of(byte) == Color::Blue <==> is_high(byte),
{
}

/// Two colours have the same id only if they are the same colour, and only
/// then the same escape sequence; the id 0 is that of `Reset` alone.
pub proof fn lemma_ids_distinct(a: Color, b: Color)
    ensures
        id_of(a) == id_of(b) <==> a == b,
        escape_of(a) == escape_of(b) <==> a == b,
        id_of(a) == 0 <==> a == Color::Reset,
        id_of(a) < 5,
        escape_of(a).len() > 0,
{
    if a != b {
        assert(escape_of(a)[escape_of(a).len() - 2] != escape_of(b)[escape_of(b).len() - 2]
            || escape_of(a).len() != escape_of(b).len());
    }
}

/// Bytes of one colour share the id and the escape sequence; digits and
/// letters have the id 0; the whitespace bytes share one id, which is neither
/// 0 nor that of any symbol.
pub proof fn lemma_ids_of_bytes(a: u8, b: u8)
    ensures
        color_of(a) == color_of(b) ==> color_id(a) == color_id(b) && color_escape(a)
            == color_escape(b),
        is_alphanumeric(a) ==> color_id(a) == 0,
        color_id(a) == 0 ==> is_alphanumeric(a),
        is_whitespace(a) && is_whitespace(b) ==> color_id(a) == color_id(b) && color_id(a) != 0,
        is_whitespace(a) && is_symbol(b) && !is_whitespace(b) ==> color_id(a) != color_id(b),
        color_escape(a).len() > 0,
        color_id(a) < 5,
{
}

/// `first_seen` is what `first_seen_closed` says.
pub proof fn lemma_first_seen(count: nat)
    requires
        count <= 256,
    ensures
        first_seen(count) == first_seen_closed(count),
    decreases count,
{
    if count > 0 {
        lemma_first_seen((count - 1) as nat);
        let before = first_seen_closed((count - 1) as nat);
        let color = color_of((count - 1) as u8);
        let i = id_of(color) as int;
        if i < before.len() {
            assert(before[i] == color);
        } else {
            assert(forall|j: int| 0 <= j < before.len() ==> before[j] != color);
        }
        assert(first_seen_closed(count) =~= if before.contains(color) {
            before
        } else {
            before.push(color)
        });
    }
}

/// The ids are handed out in the order in which the colours are first met
/// when the bytes are gone through from 0 to 255, and `Reset` has the id 0
/// before any byte is looked at.
pub proof fn lemma_ids_in_order_of_first_appearance(color: Color)
    ensures
        first_seen(256).len() == 5,
        first_seen(256)[id_of(color) as int] == color,
        first_seen(0) == seq![Color::Reset],
{
    lemma_first_seen(256);
}

impl Color {
    /// The colour of `byte`.
    pub fn of(byte: u8) -> (color: Color)
        ensures
            color == color_of(byte),
    {
        match byte {
            0x00 | 0x7f | 0xff => Color::Grey,
            0x0a | 0x0b | 0x0c | 0x0d | 0x20 => Color::Green,
            0x01..=0x1f | 0x21..=0x2f | 0x3a..=0x40 | 0x5b..=0x60 | 0x7b..=0x7e => Color::Magenta,
            0x30..=0x39 => Color::Reset,
            0x41..=0x5a => Color::Reset,
            0x61..=0x7a => Color::Reset,
            0x80..=0xfe => Color::Blue,
        }
    }

    /// The escape sequence that switches the terminal to this colour.
    pub fn escape(self) -> (bytes: &'static [u8])
        ensures
            bytes@ == escape_of(self),
    {
        match self {
            Color::Reset => ByteToColor::RESET.as_slice(),
            Color::Grey => ByteToColor::GREY.as_slice(),
            Color::Magenta => ByteToColor::MAGENTA.as_slice(),
            Color::Green => ByteToColor::GREEN.as_slice(),
            Color::Blue => ByteToColor::BLUE.as_slice(),
        }
    }
}

/// For each of the 256 byte values its escape sequence and its colour id.
pub struct ByteToColor {
    color_id: [u8; 256],
    color_bytes: [&'static [u8]; 256],
}

impl ByteToColor {
    /// `ESC [ 38 ; 5 ; 8 m`: grey of the 256-colour palette.
    pub const GREY: [u8; 9] = [0x1b, 0x5b, 0x33, 0x38, 0x3b, 0x35, 0x3b, 0x38, 0x6d];

    /// `ESC [ 38 ; 5 ; 46 m`: bright green of the 256-colour palette.
    pub const GREEN: [u8; 10] = [0x1b, 0x5b, 0x33, 0x38, 0x3b, 0x35, 0x3b, 0x34, 0x36, 0x6d];

    /// `ESC [ 38 ; 5 ; 33 m`: bright blue of the 256-colour palette.
    pub const BLUE: [u8; 10] = [0x1b, 0x5b, 0x33, 0x38, 0x3b, 0x35, 0x3b, 0x33, 0x33, 0x6d];

    /// `ESC [ 38 ; 5 ; 201 m`: bright magenta of the 256-colour palette.
    pub const MAGENTA: [u8; 11] = [
        0x1b, 0x5b, 0x33, 0x38, 0x3b, 0x35, 0x3b, 0x32, 0x30, 0x31, 0x6d,
    ];

    /// `ESC [ 0 m`: back to the terminal's own colour.
    pub const RESET: [u8; 4] = [0x1b, 0x5b, 0x30, 0x6d];

    #[verifier::type_invariant]
    spec fn well_formed(self) -> bool {
        &&& forall|b: int| 0 <= b < 256 ==> #[trigger] self.color_id[b] == color_id(b as u8)
        &&& forall|b: int|
            0 <= b < 256 ==> (#[trigger] self.color_bytes[b])@ == color_escape(b as u8)
    }

    /// The id that the table holds for `byte`.
    pub closed spec fn id_entry(&self, byte: u8) -> u8 {
        self.color_id[byte as int]
    }

    /// The escape sequence that the table holds for `byte`.
    pub closed spec fn escape_entry(&self, byte: u8) -> Seq<u8> {
        self.color_bytes[byte as int]@
    }

    /// Builds both tables. It goes through the bytes from 0 to 255 and gives
    /// each colour, when it is first met, the next free id; `Reset` has the
    /// id 0 from the start.
    pub fn new() -> (table: Self)
        ensures
            forall|byte: u8| #[trigger] table.id_entry(byte) == color_id(byte),
            forall|byte: u8| #[trigger] table.escape_entry(byte) == color_escape(byte),
    {
        let mut escapes = [Color::Reset.escape(); 256];
        let mut ids = [0u8; 256];
        let mut seen: Vec<Color> = Vec::new();
        seen.push(Color::Reset);

        let mut i: usize = 0;
        while i < 256
            invariant
                i <= 256,
                seen@ == first_seen(i as nat),
                forall|b: int| 0 <= b < i ==> #[trigger] ids[b] == color_id(b as u8),
                forall|b: int| 0 <= b < i ==> (#[trigger] escapes[b])@ == color_escape(b as u8),
            decreases 256 - i,
        {
            let color = Color::of(i as u8);
            proof {
                lemma_first_seen(i as nat);
                lemma_first_seen((i + 1) as nat);
            }
            let mut id: usize = 0;
            while id < seen.len() && seen[id] != color
                invariant
                    id <= seen.len(),
                    forall|j: int| 0 <= j < id ==> seen[j] != color,
                decreases seen.len() - id,
            {
                id += 1;
            }
            if id == seen.len() {
                seen.push(color);
            }
            escapes[i] = color.escape();
            ids[i] = id as u8;
            i += 1;
        }
        Self { color_id: ids, color_bytes: escapes }
    }

    /// The escape sequence for the colour of `byte`.
    pub fn color_bytes(&self, byte: u8) -> (bytes: &'static [u8])
        ensures
            bytes@ == color_escape(byte),
            bytes@ == self.escape_entry(byte),
    {
        proof {
            use_type_invariant(self);
        }
        self.color_bytes[byte as usize]
    }

    /// The colour id of `byte`.
    pub fn color_id(&self, byte: u8) -> (id: u8)
        ensures
            id == color_id(byte),
            id == self.id_entry(byte),
    {
        proof {
            use_type_invariant(self);
        }
        self.color_id[byte as usize]
    }
}

impl Default for ByteToColor {
    fn default() -> (table: Self)
        ensures
            forall|byte: u8| #[trigger] table.id_entry(byte) == color_id(byte),
            forall|byte: u8| #[trigger] table.escape_entry(byte) == color_escape(byte),
    {
        Self::new()
    }
}

} // verus!
