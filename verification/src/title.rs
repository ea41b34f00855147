use vstd::prelude::*;
use vstd::string::StrSliceExecFns;
use vstd::string::StringExecFns;

verus! {

/// The text that the crate `size` displays for a number of bytes, such as
/// `1.50 KiB`.
pub uninterp spec fn size_text(bytes: u64) -> Seq<char>;

/// The file name as it stands in a title: between single quotes where it
/// holds a space.
pub open spec fn quoted_name(file_name: Seq<char>) -> Seq<char> {
    if file_name.contains(' ') {
        "'"@ + file_name + "'"@
    } else {
        file_name
    }
}

/// The title of a file's dump: the name in bold, the size and the time of
/// the last change, three spaces between them.
pub open spec fn title_text(file_name: Seq<char>, size: Seq<char>, modified: Seq<char>) -> Seq<
    char,
> {
    "\x1b[1m"@ + quoted_name(file_name) + "\x1b[0m   "@ + size + "   "@ + modified
}

/// `size::Size::from_bytes` and the `Display` of the `Size` it gives: the
/// result is the text that the crate displays for `bytes`, which depends on
/// nothing but the number.
#[verifier::external_body]
fn format_size(bytes: u64) -> (text: String)
    ensures
        text@ == size_text(bytes),
{
    size::Size::from_bytes(bytes).to_string()
}

/// Whether `text` holds a space.
pub fn has_space(text: &str) -> (found: bool)
    ensures
        found == text@.contains(' '),
{
    let len = text.unicode_len();
    let mut i: usize = 0;
    while i < len
        invariant
            i <= len == text@.len(),
            forall|j: int| 0 <= j < i ==> text@[j] != ' ',
        decreases len - i,
    {
        if text.get_char(i) == ' ' {
            return true;
        }
        i += 1;
    }
    false
}

/// Puts a title together from the file's name and from the texts of its size
/// and of the time of its last change.
pub fn compose_title(file_name: &str, size: &str, modified: &str) -> (title: String)
    ensures
        title@ == title_text(file_name@, size@, modified@),
{
    let mut title = String::from_str("\x1b[1m");
    if has_space(file_name) {
        title.append("'");
        title.append(file_name);
        title.append("'");
    } else {
        title.append(file_name);
    }
    title.append("\x1b[0m   ");
    title.append(size);
    title.append("   ");
    title.append(modified);
    assert(title@ =~= title_text(file_name@, size@, modified@));
    title
}

/// The title of the dump of a file of `size_in_bytes` bytes.
pub fn file_title(file_name: &str, size_in_bytes: u64, modified: &str) -> (title: String)
    ensures
        title@ == title_text(file_name@, size_text(size_in_bytes), modified@),
{
    let size = format_size(size_in_bytes);
    compose_title(file_name, size.as_str(), modified)
}

} // verus!
