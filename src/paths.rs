//! Splitting paths into segments, and joining them.
use vstd::prelude::*;

use crate::text::{owned, strings_view};

verus! {

/// A piece between separators, unless it is empty or ".".
pub open spec fn kept_piece(piece: Seq<char>) -> Seq<Seq<char>> {
    if piece.len() == 0 || piece == seq!['.'] {
        Seq::empty()
    } else {
        seq![piece]
    }
}

/// The pieces of `s` between separators, in order, `cur` being the piece
/// read so far; empty pieces and "." are left out.
pub open spec fn pieces_from(s: Seq<char>, cur: Seq<char>) -> Seq<Seq<char>>
    decreases s.len(),
{
    if s.len() == 0 {
        kept_piece(cur)
    } else if s[0] == '/' {
        kept_piece(cur) + pieces_from(s.drop_first(), Seq::empty())
    } else {
        pieces_from(s.drop_first(), cur.push(s[0]))
    }
}

/// The segments of a Unix path, as `std::path::Path::iter` yields them: "/"
/// first when the path starts at the root, "." first when it starts with
/// "." alone, then the pieces between separators other than empty ones and
/// ".".
pub open spec fn path_components(path: Seq<char>) -> Seq<Seq<char>> {
    if path.len() > 0 && path[0] == '/' {
        seq![seq!['/']] + pieces_from(path.drop_first(), Seq::empty())
    } else if path.len() > 0 && path[0] == '.' && (path.len() == 1 || path[1] == '/') {
        seq![seq!['.']] + pieces_from(path.drop_first(), Seq::empty())
    } else {
        pieces_from(path, Seq::empty())
    }
}

/// Relies on `std::path::Path::iter` on Unix: the root as "/", a leading
/// "." as ".", then each component between separators, skipping empty ones
/// and "."; each is a piece of the (UTF-8) text, so the conversion back to
/// `String` is exact.
#[verifier::external_body]
pub(crate) fn components(path: &str) -> (r: Vec<String>)
    ensures
        strings_view(r@) == path_components(path@),
{
    std::path::Path::new(path).iter().map(|c| c.to_string_lossy().into_owned()).collect()
}

/// `base` with `piece` appended as one more segment, as
/// `std::path::PathBuf::push` does for a relative piece: a separator goes
/// between them unless `base` is empty or already ends with one.
pub open spec fn join_path(base: Seq<char>, piece: Seq<char>) -> Seq<char> {
    if base.len() == 0 || base.last() == '/' {
        base + piece
    } else {
        base + seq!['/'] + piece
    }
}

/// `base` with the relative `piece` appended as one more segment.
pub fn join_path_string(base: &str, piece: &str) -> (r: String)
    ensures
        r@ == join_path(base@, piece@),
{
    let mut r = owned(base);
    let n = base.unicode_len();
    if n > 0 && base.get_char(n - 1) != '/' {
        r.append("/");
        proof {
            reveal_strlit("/");
        }
    }
    r.append(piece);
    r
}

/// Whether the text starts with the separator, which on Unix makes a path
/// absolute.
pub open spec fn starts_at_root(p: Seq<char>) -> bool {
    p.len() > 0 && p[0] == '/'
}

pub fn is_absolute_text(p: &str) -> (r: bool)
    ensures
        r == starts_at_root(p@),
{
    p.unicode_len() > 0 && p.get_char(0) == '/'
}

} // verus!
