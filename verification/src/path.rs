//! Unix paths: byte strings, most often but not always UTF-8.

use vstd::prelude::*;
use vstd::utf8::*;

use crate::views;

verus! {

broadcast use crate::views_push;

/// What separates the components of a path: a slash.
pub const SEPARATOR: u8 = 0x2f;

/// What names the directory that a path stands in: a single dot.
pub const DOT: u8 = 0x2e;

/// A path on the host or in a container. Two paths are equal that have the same
/// components, however they are spelled.
#[derive(Debug)]
pub struct PathBuf {
    pub bytes: Vec<u8>,
}

impl View for PathBuf {
    type V = Seq<u8>;

    open spec fn view(&self) -> Seq<u8> {
        self.bytes@
    }
}

impl Clone for PathBuf {
    fn clone(&self) -> (r: Self)
        ensures
            r@ == self@,
    {
        PathBuf { bytes: self.bytes.clone() }
    }
}

impl PathBuf {
    /// The path that `text` spells.
    pub fn from(text: &str) -> (r: PathBuf)
        ensures
            r@ == encode_utf8(text@),
    {
        PathBuf { bytes: text.as_bytes_vec() }
    }

    /// The path of `name` as seen from this directory.
    pub fn join(&self, name: &str) -> (r: PathBuf)
        ensures
            r@ == joined(self@, encode_utf8(name@)),
    {
        let mut tail: Vec<u8> = name.as_bytes_vec();
        if tail.len() > 0 && tail[0] == SEPARATOR {
            return PathBuf { bytes: tail };
        }
        let mut bytes: Vec<u8> = self.bytes.clone();
        let n: usize = bytes.len();
        if n > 0 && bytes[n - 1] != SEPARATOR {
            bytes.push(SEPARATOR);
        }
        bytes.append(&mut tail);
        PathBuf { bytes }
    }

    /// The path as text. Bytes that are not UTF-8 come out as replacement
    /// characters.
    pub fn to_string_lossy(&self) -> (r: String)
        ensures
            r@ == lossy_text(self@),
    {
        lossy_string(self.bytes.as_slice())
    }
}

/// The path of `name` as seen from `directory`: behind a separator, unless it is
/// absolute or there is nothing to separate it from.
pub open spec fn joined(directory: Seq<u8>, name: Seq<u8>) -> Seq<u8> {
    if name.len() > 0 && name[0] == SEPARATOR {
        name
    } else if directory.len() == 0 || directory.last() == SEPARATOR {
        directory + name
    } else {
        directory.push(SEPARATOR) + name
    }
}

/// The text that `String::from_utf8_lossy` gives for bytes that are not UTF-8.
pub uninterp spec fn replaced_text(bytes: Seq<u8>) -> Seq<char>;

/// The text of a path: what its bytes encode, or, where they are not UTF-8, the
/// text with every offending sequence replaced.
pub open spec fn lossy_text(path: Seq<u8>) -> Seq<char> {
    if valid_utf8(path) {
        decode_utf8(path)
    } else {
        replaced_text(path)
    }
}

/// `String::from_utf8_lossy`: UTF-8 is decoded as it is; of other bytes the
/// result depends on them alone, and nothing more is claimed.
#[verifier::external_body]
fn lossy_string(bytes: &[u8]) -> (r: String)
    ensures
        r@ == (if valid_utf8(bytes@) {
            decode_utf8(bytes@)
        } else {
            replaced_text(bytes@)
        }),
{
    String::from_utf8_lossy(bytes).into_owned()
}

/// What stands between the separators of `path`, before the first and behind the
/// last.
pub open spec fn pieces<T>(path: Seq<T>, separator: T) -> Seq<Seq<T>>
    decreases path.len(),
{
    if path.len() == 0 {
        seq![seq![]]
    } else {
        let before = pieces(path.drop_last(), separator);
        if path.last() == separator {
            before.push(seq![])
        } else {
            before.drop_last().push(before.last().push(path.last()))
        }
    }
}

/// The pieces that count: not those that are empty, nor those that are a single
/// dot, but for the very first.
pub open spec fn counting<T>(pieces: Seq<Seq<T>>, dot: T) -> Seq<Seq<T>>
    decreases pieces.len(),
{
    if pieces.len() == 0 {
        seq![]
    } else {
        let before = counting(pieces.drop_last(), dot);
        let last = pieces.last();
        if last.len() == 0 || (last == seq![dot] && pieces.len() > 1) {
            before
        } else {
            before.push(last)
        }
    }
}

/// The components of `path`: the pieces between its separators, but for empty
/// ones and for single dots. A dot counts that a relative path begins with.
pub open spec fn components<T>(path: Seq<T>, separator: T, dot: T) -> Seq<Seq<T>> {
    counting(pieces(path, separator), dot)
}

/// `path` begins at the root.
pub open spec fn is_absolute(path: Seq<u8>) -> bool {
    path.len() > 0 && path[0] == SEPARATOR
}

/// What makes a path the path it is, whatever its spelling: whether it begins at
/// the root, and its components.
pub open spec fn path_key(path: Seq<u8>) -> (bool, Seq<Seq<u8>>) {
    (is_absolute(path), components(path, SEPARATOR, DOT))
}

/// A path has at least one piece.
pub(crate) proof fn there_is_a_piece<T>(path: Seq<T>, separator: T)
    ensures
        pieces(path, separator).len() >= 1,
    decreases path.len(),
{
    if path.len() > 0 {
        there_is_a_piece(path.drop_last(), separator);
    }
}

/// Puts `piece` behind `found`, unless it does not count. It is the very first
/// piece where `first` holds.
fn add_piece(found: &mut Vec<Vec<u8>>, piece: Vec<u8>, first: bool)
    ensures
        views(final(found)@) == (if piece@.len() == 0 || (piece@ == seq![DOT] && !first) {
            views(old(found)@)
        } else {
            views(old(found)@).push(piece@)
        }),
{
    let is_dot: bool = piece.len() == 1 && piece[0] == DOT;
    assert(is_dot <==> piece@ =~= seq![DOT]);
    if piece.len() > 0 && (first || !is_dot) {
        found.push(piece);
    }
}

/// The components of `path`.
fn path_components(path: &PathBuf) -> (r: Vec<Vec<u8>>)
    ensures
        views(r@) == components(path@, SEPARATOR, DOT),
{
    let mut found: Vec<Vec<u8>> = Vec::new();
    let mut piece: Vec<u8> = Vec::new();
    let mut first: bool = true;
    proof {
        assert(path@.take(0) =~= seq![]);
        assert(pieces(path@.take(0), SEPARATOR).drop_last() =~= seq![]);
        assert(views(found@) =~= seq![]);
        assert(piece@ =~= seq![]);
    }
    for i in 0..path.bytes.len()
        invariant
            pieces(path@.take(i as int), SEPARATOR).len() >= 1,
            pieces(path@.take(i as int), SEPARATOR).last() == piece@,
            counting(pieces(path@.take(i as int), SEPARATOR).drop_last(), DOT) == views(found@),
            first <==> pieces(path@.take(i as int), SEPARATOR).len() == 1,
    {
        let ghost before = pieces(path@.take(i as int), SEPARATOR);
        let ghost after = pieces(path@.take(i + 1), SEPARATOR);
        assert(path@.take(i + 1).drop_last() =~= path@.take(i as int));
        let byte: u8 = path.bytes[i];
        if byte == SEPARATOR {
            assert(after.drop_last() =~= before);
            add_piece(&mut found, piece, first);
            piece = Vec::new();
            first = false;
            assert(piece@ =~= seq![]);
        } else {
            assert(after.drop_last() =~= before.drop_last());
            piece.push(byte);
        }
    }
    assert(path@.take(path@.len() as int) =~= path@);
    add_piece(&mut found, piece, first);
    found
}

/// Whether two paths are the same: both or neither absolute, with the same
/// components. Repeated separators, one at the end and dots in between do not
/// count.
pub fn same_path(a: &PathBuf, b: &PathBuf) -> (r: bool)
    ensures
        r == (path_key(a@) == path_key(b@)),
{
    let a_absolute: bool = a.bytes.len() > 0 && a.bytes[0] == SEPARATOR;
    let b_absolute: bool = b.bytes.len() > 0 && b.bytes[0] == SEPARATOR;
    if a_absolute != b_absolute {
        return false;
    }
    let left: Vec<Vec<u8>> = path_components(a);
    let right: Vec<Vec<u8>> = path_components(b);
    if left.len() != right.len() {
        assert(views(left@).len() != views(right@).len());
        return false;
    }
    for i in 0..left.len()
        invariant
            left.len() == right.len(),
            views(left@) == path_key(a@).1,
            views(right@) == path_key(b@).1,
            forall|j: int| 0 <= j < i ==> views(left@)[j] == views(right@)[j],
    {
        assert(views(left@)[i as int] == left@[i as int]@);
        assert(views(right@)[i as int] == right@[i as int]@);
        if !same_bytes(&left[i], &right[i]) {
            return false;
        }
    }
    assert(views(left@) =~= views(right@));
    true
}

/// Whether `a` and `b` hold the same bytes.
fn same_bytes(a: &Vec<u8>, b: &Vec<u8>) -> (r: bool)
    ensures
        r == (a@ == b@),
{
    if a.len() != b.len() {
        return false;
    }
    for i in 0..a.len()
        invariant
            a.len() == b.len(),
            forall|j: int| 0 <= j < i ==> a@[j] == b@[j],
    {
        if a[i] != b[i] {
            return false;
        }
    }
    assert(a@ =~= b@);
    true
}

impl PartialEq for PathBuf {
    fn eq(&self, other: &Self) -> (r: bool) {
        same_path(self, other)
    }
}

impl Eq for PathBuf {

}

impl vstd::std_specs::cmp::PartialEqSpecImpl for PathBuf {
    open spec fn obeys_eq_spec() -> bool {
        true
    }

    open spec fn eq_spec(&self, other: &Self) -> bool {
        path_key(self@) == path_key(other@)
    }
}

/// Behind a separator, what is added to two paths counts for both alike.
proof fn same_tail(a: Seq<u8>, b: Seq<u8>, tail: Seq<u8>)
    requires
        a.len() > 0,
        b.len() > 0,
        a.last() == SEPARATOR,
        b.last() == SEPARATOR,
        components(a, SEPARATOR, DOT) == components(b, SEPARATOR, DOT),
    ensures
        components(a + tail, SEPARATOR, DOT) == components(b + tail, SEPARATOR, DOT),
        pieces(a + tail, SEPARATOR).len() > 1,
        pieces(b + tail, SEPARATOR).len() > 1,
        pieces(a + tail, SEPARATOR).last() == pieces(b + tail, SEPARATOR).last(),
        counting(pieces(a + tail, SEPARATOR).drop_last(), DOT) == counting(
            pieces(b + tail, SEPARATOR).drop_last(),
            DOT,
        ),
    decreases tail.len(),
{
    if tail.len() == 0 {
        assert(a + tail =~= a);
        assert(b + tail =~= b);
        there_is_a_piece(a.drop_last(), SEPARATOR);
        there_is_a_piece(b.drop_last(), SEPARATOR);
        assert(pieces(a, SEPARATOR).last().len() == 0);
        assert(pieces(b, SEPARATOR).last().len() == 0);
    } else {
        let rest = tail.drop_last();
        same_tail(a, b, rest);
        assert((a + tail).drop_last() =~= a + rest);
        assert((b + tail).drop_last() =~= b + rest);
        let left = pieces(a + rest, SEPARATOR);
        let right = pieces(b + rest, SEPARATOR);
        if tail.last() == SEPARATOR {
            assert(pieces(a + tail, SEPARATOR).drop_last() =~= left);
            assert(pieces(b + tail, SEPARATOR).drop_last() =~= right);
        } else {
            assert(pieces(a + tail, SEPARATOR).drop_last() =~= left.drop_last());
            assert(pieces(b + tail, SEPARATOR).drop_last() =~= right.drop_last());
        }
    }
}

/// A separator at the end does not count, but for that of the root.
pub proof fn trailing_separator_does_not_count(path: Seq<u8>)
    requires
        path.len() > 0,
    ensures
        path_key(path.push(SEPARATOR)) == path_key(path),
{
    let longer = path.push(SEPARATOR);
    assert(longer.drop_last() =~= path);
    assert(pieces(longer, SEPARATOR).drop_last() =~= pieces(path, SEPARATOR));
}

/// A separator that is repeated counts once.
pub proof fn repeated_separator_counts_once(head: Seq<u8>, tail: Seq<u8>)
    ensures
        path_key(head.push(SEPARATOR).push(SEPARATOR) + tail) == path_key(
            head.push(SEPARATOR) + tail,
        ),
{
    let once = head.push(SEPARATOR);
    trailing_separator_does_not_count(once);
    same_tail(once.push(SEPARATOR), once, tail);
    assert((once.push(SEPARATOR) + tail)[0] == once[0]);
    assert((once + tail)[0] == once[0]);
}

/// A single dot between separators does not count.
pub proof fn inner_dot_does_not_count(head: Seq<u8>, tail: Seq<u8>)
    ensures
        path_key(head.push(SEPARATOR).push(DOT).push(SEPARATOR) + tail) == path_key(
            head.push(SEPARATOR) + tail,
        ),
{
    let once = head.push(SEPARATOR);
    let dotted = once.push(DOT);
    let longer = dotted.push(SEPARATOR);
    there_is_a_piece(head, SEPARATOR);
    assert(once.drop_last() =~= head);
    assert(dotted.drop_last() =~= once);
    assert(longer.drop_last() =~= dotted);
    let before = pieces(once, SEPARATOR);
    assert(pieces(dotted, SEPARATOR).drop_last() =~= before.drop_last());
    assert(pieces(dotted, SEPARATOR).last() =~= seq![DOT]);
    assert(before.last().len() == 0);
    assert(components(dotted, SEPARATOR, DOT) == components(once, SEPARATOR, DOT));
    trailing_separator_does_not_count(dotted);
    same_tail(longer, once, tail);
    assert((longer + tail)[0] == once[0]);
    assert((once + tail)[0] == once[0]);
}

/// A path made from text reads back as that text.
pub proof fn path_text_round_trip(text: Seq<char>)
    ensures
        lossy_text(encode_utf8(text)) == text,
{
    encode_utf8_valid_utf8(text);
    encode_utf8_decode_utf8(text);
}

/// A name without separators behind a directory is the last piece of the path.
pub(crate) proof fn name_is_the_last_piece<T>(directory: Seq<T>, name: Seq<T>, separator: T)
    requires
        directory.len() == 0 || directory.last() == separator,
        !name.contains(separator),
    ensures
        pieces(directory + name, separator) == pieces(directory, separator).drop_last().push(name),
    decreases name.len(),
{
    let parts = pieces(directory, separator);
    there_is_a_piece(directory, separator);
    if name.len() == 0 {
        assert(directory + name =~= directory);
        assert(parts.last() =~= name);
        assert(parts =~= parts.drop_last().push(name));
    } else {
        let shorter = name.drop_last();
        assert(name.last() != separator) by {
            assert(name.contains(name.last()));
        }
        assert(!shorter.contains(separator)) by {
            if shorter.contains(separator) {
                let k = choose|k: int| 0 <= k < shorter.len() && shorter[k] == separator;
                assert(name[k] == separator);
            }
        }
        assert((directory + name).drop_last() =~= directory + shorter);
        name_is_the_last_piece(directory, shorter, separator);
        assert(parts.drop_last().push(shorter).drop_last() =~= parts.drop_last());
        assert(shorter.push(name.last()) =~= name);
    }
}

/// The empty path has no components, and a name without separators is its own
/// only component, even a single dot.
pub proof fn name_is_its_only_component<T>(name: Seq<T>, separator: T, dot: T)
    requires
        !name.contains(separator),
    ensures
        components(name, separator, dot) == (if name.len() == 0 {
            Seq::<Seq<T>>::empty()
        } else {
            seq![name]
        }),
{
    let nothing = Seq::<T>::empty();
    name_is_the_last_piece(nothing, name, separator);
    assert(nothing + name =~= name);
    assert(pieces(nothing, separator).drop_last() =~= Seq::<Seq<T>>::empty());
    assert(pieces(name, separator) =~= seq![name]);
    assert(pieces(name, separator).drop_last() =~= Seq::<Seq<T>>::empty());
    reveal_with_fuel(counting, 2);
    assert(components(name, separator, dot) =~= (if name.len() == 0 {
        Seq::<Seq<T>>::empty()
    } else {
        seq![name]
    }));
}

/// A name without separators that stands in a directory is the component behind
/// those of the directory; a single dot there adds none.
pub proof fn name_in_a_directory_is_the_next_component<T>(
    directory: Seq<T>,
    name: Seq<T>,
    separator: T,
    dot: T,
)
    requires
        !name.contains(separator),
    ensures
        components(directory.push(separator) + name, separator, dot) == (if name.len() == 0 || name
            == seq![dot] {
            components(directory, separator, dot)
        } else {
            components(directory, separator, dot).push(name)
        }),
{
    let slashed = directory.push(separator);
    assert(slashed.drop_last() =~= directory);
    there_is_a_piece(directory, separator);
    assert(pieces(slashed, separator).drop_last() =~= pieces(directory, separator));
    name_is_the_last_piece(slashed, name, separator);
    let parts = pieces(slashed + name, separator);
    assert(parts.drop_last() =~= pieces(directory, separator));
    assert(parts.last() == name);
}

/// Paths are the same that both begin at the root or both do not, and that have
/// the same components one by one.
pub proof fn path_is_its_root_and_components(a: Seq<u8>, b: Seq<u8>)
    ensures
        path_key(a) == path_key(b) <==> {
            let left = components(a, SEPARATOR, DOT);
            let right = components(b, SEPARATOR, DOT);
            &&& (a.len() > 0 && a[0] == 0x2f) == (b.len() > 0 && b[0] == 0x2f)
            &&& left.len() == right.len()
            &&& forall|i: int| 0 <= i < left.len() ==> left[i] == #[trigger] right[i]
        },
{
    let left = components(a, SEPARATOR, DOT);
    let right = components(b, SEPARATOR, DOT);
    if left.len() == right.len() && forall|i: int|
        0 <= i < left.len() ==> left[i] == #[trigger] right[i] {
        assert(left =~= right);
    }
}

/// A path keeps every byte of the text it is made from, and the text of a path
/// that is UTF-8 keeps every byte of the path.
pub proof fn path_text_keeps_the_bytes(path: Seq<u8>)
    ensures
        valid_utf8(path) ==> encode_utf8(lossy_text(path)) == path,
        !valid_utf8(path) ==> lossy_text(path) == replaced_text(path),
{
    if valid_utf8(path) {
        decode_utf8_encode_utf8(path);
    }
}

/// A path seen from a directory begins with the directory and ends in the name,
/// with nothing but one separator in between, and none where there already is
/// one; an absolute name stands alone.
pub proof fn joined_path_is_directory_and_name(directory: Seq<u8>, name: Seq<u8>)
    ensures
        name.len() > 0 && name[0] == 0x2f ==> joined(directory, name) == name,
        !(name.len() > 0 && name[0] == 0x2f) ==> {
            let path = joined(directory, name);
            let gap = path.len() - directory.len() - name.len();
            &&& gap == (if directory.len() > 0 && directory.last() != 0x2f {
                1int
            } else {
                0int
            })
            &&& path.take(directory.len() as int) == directory
            &&& path.skip(path.len() - name.len()) == name
            &&& gap == 1 ==> path[directory.len() as int] == 0x2f
        },
{
    let path = joined(directory, name);
    if !(name.len() > 0 && name[0] == 0x2f) {
        assert(path.take(directory.len() as int) =~= directory);
        assert(path.skip(path.len() - name.len()) =~= name);
    }
}

} // verus!
