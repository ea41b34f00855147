use crate::error::HexlerError;
use vstd::prelude::*;
use vstd::utf8::encode_utf8;

verus! {

/// `count` horizontal strokes, one after the other.
pub open spec fn rule(count: nat) -> Seq<u8>
    decreases count,
{
    if count == 0 {
        Seq::empty()
    } else {
        rule((count - 1) as nat) + BorderWriter::HORIZONTAL@
    }
}

/// The line that carries the title: the title and a line feed. An empty
/// title has no line.
pub open spec fn title_line(title: Seq<char>) -> Seq<u8> {
    if title.len() == 0 {
        Seq::empty()
    } else {
        encode_utf8(title) + seq![0x0au8]
    }
}

/// How many strokes lie under the column of hexadecimal numbers: for each
/// group of eight bytes a space and eight times three characters.
pub open spec fn hex_section_width(bytes_per_line: nat) -> nat {
    (bytes_per_line / 8) * 25
}

/// The border line: 9 strokes over the offset, the strokes over the
/// hexadecimal numbers and `bytes_per_line + 1` strokes over the characters,
/// with `connector` where two sections meet, and a line feed.
pub open spec fn border_line(bytes_per_line: nat, connector: Seq<u8>) -> Seq<u8> {
    rule(9) + connector + rule(hex_section_width(bytes_per_line)) + connector + rule(
        bytes_per_line + 1,
    ) + seq![0x0au8]
}

/// The header: the line of the title, then the border line.
pub open spec fn header_text(title: Seq<char>, bytes_per_line: nat) -> Seq<u8> {
    title_line(title) + border_line(bytes_per_line, BorderWriter::CONNECTOR_TOP@)
}

/// The footer: the border line, then the line of the title.
pub open spec fn footer_text(title: Seq<char>, bytes_per_line: nat) -> Seq<u8> {
    border_line(bytes_per_line, BorderWriter::CONNECTOR_BOTTOM@) + title_line(title)
}

/// Two rules, one after the other, are one rule.
pub proof fn lemma_rule_add(a: nat, b: nat)
    ensures
        rule(a) + rule(b) == rule(a + b),
    decreases b,
{
    if b == 0 {
        assert(rule(a) + rule(0) =~= rule(a));
    } else {
        lemma_rule_add(a, (b - 1) as nat);
        assert(rule(a) + rule(b) =~= (rule(a) + rule((b - 1) as nat)) + BorderWriter::HORIZONTAL@);
    }
}

/// Draws the lines above and below a dump.
pub struct BorderWriter;

impl BorderWriter {
    /// The horizontal stroke U+2500 in UTF-8.
    pub const HORIZONTAL: [u8; 3] = [0xe2, 0x94, 0x80];

    /// The stroke that branches downwards, U+252C, in UTF-8.
    pub const CONNECTOR_TOP: [u8; 3] = [0xe2, 0x94, 0xac];

    /// The stroke that branches upwards, U+2534, in UTF-8.
    pub const CONNECTOR_BOTTOM: [u8; 3] = [0xe2, 0x94, 0xb4];

    /// Appends the header to `writer`: the title on a line of its own, unless
    /// it is empty, and below it the border line.
    pub fn write_header(writer: &mut Vec<u8>, title: &str, bytes_per_line: usize) -> (result:
        Result<(), HexlerError>)
        ensures
            result is Ok,
            final(writer)@ == old(writer)@ + header_text(title@, bytes_per_line as nat),
    {
        Self::write_border(writer, title, bytes_per_line, &Self::CONNECTOR_TOP, true);
        Ok(())
    }

    /// Appends the footer to `writer`: the border line and below it the title
    /// on a line of its own, unless it is empty.
    pub fn write_footer(writer: &mut Vec<u8>, title: &str, bytes_per_line: usize) -> (result:
        Result<(), HexlerError>)
        ensures
            result is Ok,
            final(writer)@ == old(writer)@ + footer_text(title@, bytes_per_line as nat),
    {
        Self::write_border(writer, title, bytes_per_line, &Self::CONNECTOR_BOTTOM, false);
        Ok(())
    }

    /// Appends `count` strokes.
    fn write_rule(writer: &mut Vec<u8>, count: usize)
        ensures
            final(writer)@ == old(writer)@ + rule(count as nat),
    {
        let mut i: usize = 0;
        assert(writer@ =~= old(writer)@ + rule(0));
        while i < count
            invariant
                i <= count,
                writer@ == old(writer)@ + rule(i as nat),
            decreases count - i,
        {
            writer.extend_from_slice(&Self::HORIZONTAL);
            i += 1;
            assert(writer@ =~= old(writer)@ + rule(i as nat));
        }
    }

    /// Appends the line of the title, if there is one.
    fn write_title(writer: &mut Vec<u8>, title: &str)
        ensures
            final(writer)@ == old(writer)@ + title_line(title@),
    {
        if !title.is_empty() {
            writer.extend_from_slice(title.as_bytes());
            writer.push(0x0a);
            assert(writer@ =~= old(writer)@ + title_line(title@));
        } else {
            assert(writer@ =~= old(writer)@ + title_line(title@));
        }
    }

    /// Appends the border line with `connector` at its joints, and the line of
    /// the title before it or after it.
    fn write_border(
        writer: &mut Vec<u8>,
        title: &str,
        bytes_per_line: usize,
        connector: &[u8; 3],
        title_first: bool,
    )
        ensures
            final(writer)@ == old(writer)@ + if title_first {
                title_line(title@) + border_line(bytes_per_line as nat, connector@)
            } else {
                border_line(bytes_per_line as nat, connector@) + title_line(title@)
            },
    {
        let num_groups = bytes_per_line / 8;

        if title_first {
            Self::write_title(writer, title);
        }
        let ghost start = writer@;

        // Over the offset: eight digits and a space.
        Self::write_rule(writer, 9);
        writer.extend_from_slice(connector);

        // Over the hexadecimal numbers, group by group.
        let ghost joint = writer@;
        let mut group: usize = 0;
        assert(writer@ =~= joint + rule(0));
        while group < num_groups
            invariant
                group <= num_groups,
                writer@ == joint + rule((group * 25) as nat),
            decreases num_groups - group,
        {
            let ghost before = (group * 25) as nat;
            Self::write_rule(writer, 25);
            group += 1;
            proof {
                lemma_rule_add(before, 25);
                assert(writer@ =~= joint + (rule(before) + rule(25)));
            }
        }
        writer.extend_from_slice(connector);

        // Over the characters.
        let ghost second = writer@;
        Self::write_rule(writer, bytes_per_line);
        Self::write_rule(writer, 1);
        writer.push(0x0a);
        proof {
            lemma_rule_add(bytes_per_line as nat, 1);
            assert(writer@ =~= second + (rule(bytes_per_line as nat) + rule(1)) + seq![0x0au8]);
            assert(writer@ =~= start + border_line(bytes_per_line as nat, connector@));
        }

        if !title_first {
            Self::write_title(writer, title);
        }
        assert(writer@ =~= old(writer)@ + if title_first {
            title_line(title@) + border_line(bytes_per_line as nat, connector@)
        } else {
            border_line(bytes_per_line as nat, connector@) + title_line(title@)
        });
    }
}

} // verus!
