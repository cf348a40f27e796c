//! Names of plugin sockets.

use vstd::prelude::*;
use vstd::utf8::*;

use crate::path::components;
use crate::path::counting;
use crate::path::name_in_a_directory_is_the_next_component;
use crate::path::name_is_its_only_component;
use crate::path::pieces;
use crate::path::there_is_a_piece;
use crate::v1beta1::DEVICE_PLUGIN_PATH;
use crate::v1beta1::KUBELET_SOCKET;

verus! {

/// Linux keeps 108 bytes for a socket path, with the NUL terminator; one byte
/// less is a portable budget.
pub const MAX_SOCKET_PATH_LEN: usize = 107;

/// Start value of the FNV-1a hash.
pub const FNV_OFFSET_BASIS: u64 = 0xcbf29ce484222325;

/// Multiplier of the FNV-1a hash.
pub const FNV_PRIME: u64 = 0x0000_0100_0000_01b3;

/// The digits of a base sixteen number.
pub const HEX_DIGITS: &'static str = "0123456789abcdef";

/// `String::push`: the character is added behind the text.
pub assume_specification[ String::push ](text: &mut String, c: char)
    ensures
        final(text)@ == old(text)@.push(c),
;

/// A character that may stand in a socket name: an ASCII letter or digit, `-`
/// or `_`.
pub open spec fn safe_char(c: char) -> bool {
    ||| '0' <= c <= '9'
    ||| 'A' <= c <= 'Z'
    ||| 'a' <= c <= 'z'
    ||| c == '-'
    ||| c == '_'
}

/// Text that may stand in a socket name.
pub open spec fn safe_text(text: Seq<char>) -> bool {
    forall|i: int| 0 <= i < text.len() ==> safe_char(#[trigger] text[i])
}

/// Whether `c` has to be replaced in a socket name.
pub fn invalid_char(c: char) -> (r: bool)
    ensures
        r == !safe_char(c),
{
    !(('0' <= c && c <= '9') || ('A' <= c && c <= 'Z') || ('a' <= c && c <= 'z') || c == '-' || c
        == '_')
}

/// The 64-bit FNV-1a hash of `bytes`.
pub open spec fn fnv1a64_hash(bytes: Seq<u8>) -> u64
    decreases bytes.len(),
{
    if bytes.len() == 0 {
        FNV_OFFSET_BASIS
    } else {
        (fnv1a64_hash(bytes.drop_last()) ^ (bytes.last() as u64)).wrapping_mul(FNV_PRIME)
    }
}

/// The 64-bit FNV-1a hash of `bytes`.
pub fn fnv1a64(bytes: &[u8]) -> (hash: u64)
    ensures
        hash == fnv1a64_hash(bytes@),
{
    let mut hash: u64 = FNV_OFFSET_BASIS;
    assert(bytes@.take(0).len() == 0);
    for i in 0..bytes.len()
        invariant
            hash == fnv1a64_hash(bytes@.take(i as int)),
    {
        assert(bytes@.take(i + 1).drop_last() =~= bytes@.take(i as int));
        hash = (hash ^ (bytes[i] as u64)).wrapping_mul(FNV_PRIME);
    }
    assert(bytes@.take(bytes@.len() as int) =~= bytes@);
    hash
}

/// The `i`-th base sixteen digit of `value`, counted from the most significant
/// of the sixteen.
pub open spec fn nibble(value: u64, i: int) -> u64 {
    (value >> ((60 - 4 * i) as u64)) & 0xf
}

/// `value` in base sixteen: sixteen lower case digits, with leading zeros.
pub open spec fn hex16(value: u64) -> Seq<char> {
    Seq::new(16, |i: int| HEX_DIGITS@[nibble(value, i) as int])
}

/// What a socket name ends in: a dash and the hash of the resource name.
pub open spec fn hash_suffix(name: Seq<char>) -> Seq<char> {
    seq!['-'] + hex16(fnv1a64_hash(encode_utf8(name)))
}

/// `name` with every character that may not stand in a socket name replaced by
/// an underscore.
pub open spec fn sanitized(name: Seq<char>) -> Seq<char> {
    name.map_values(
        |c: char|
            if safe_char(c) {
                c
            } else {
                '_'
            },
    )
}

/// How many characters of the sanitized name a socket path has room for: what
/// the limit leaves beside the directory, the dash and the sixteen digits.
pub open spec fn name_budget() -> int {
    MAX_SOCKET_PATH_LEN - DEVICE_PLUGIN_PATH@.len() - 17
}

/// The part of a socket name that can be read: the sanitized resource name, cut
/// off where the path would get too long.
pub open spec fn readable_part(name: Seq<char>) -> Seq<char> {
    if name.len() <= name_budget() {
        sanitized(name)
    } else {
        sanitized(name).take(name_budget())
    }
}

/// The socket name of the resource `name`.
pub open spec fn socket_name(name: Seq<char>) -> Seq<char> {
    readable_part(name) + hash_suffix(name)
}

/// A digit of the base sixteen number is below sixteen.
proof fn nibble_is_a_digit(value: u64, i: int)
    ensures
        nibble(value, i) < 16,
{
    let shift = (60 - 4 * i) as u64;
    assert((value >> shift) & 0xf < 16) by (bit_vector);
}

/// The directory of the sockets is 32 ASCII characters long.
proof fn plugin_path_is_ascii()
    ensures
        DEVICE_PLUGIN_PATH@.len() == 32,
        is_ascii_chars(DEVICE_PLUGIN_PATH@),
        encode_utf8(DEVICE_PLUGIN_PATH@).len() == 32,
{
    reveal_strlit("/var/lib/kubelet/device-plugins/");
    is_ascii_chars_encode_utf8(DEVICE_PLUGIN_PATH@);
}

/// Text that is made of safe characters takes one byte for each.
proof fn safe_text_is_ascii(text: Seq<char>)
    requires
        safe_text(text),
    ensures
        is_ascii_chars(text),
        encode_utf8(text).len() == text.len(),
{
    assert forall|i: int| 0 <= i < text.len() implies 0 <= #[trigger] text[i] as nat <= 0x7f by {
        assert(safe_char(text[i]));
    }
    is_ascii_chars_encode_utf8(text);
}

/// The hash suffix takes seventeen safe characters.
proof fn hash_suffix_is_safe(name: Seq<char>)
    ensures
        hash_suffix(name).len() == 17,
        safe_text(hash_suffix(name)),
{
    let hash = fnv1a64_hash(encode_utf8(name));
    reveal_strlit("0123456789abcdef");
    assert forall|i: int| 0 <= i < 17 implies safe_char(#[trigger] hash_suffix(name)[i]) by {
        if i > 0 {
            nibble_is_a_digit(hash, i - 1);
        }
    }
}

/// `value` in base sixteen, behind a dash.
fn dashed_hex(value: u64) -> (r: String)
    ensures
        r@ == seq!['-'] + hex16(value),
{
    let mut text = String::new();
    text.push('-');
    for i in 0..16usize
        invariant
            text@ =~= seq!['-'] + hex16(value).take(i as int),
    {
        let shift: u64 = 60 - 4 * (i as u64);
        let digit: u64 = (value >> shift) & 0xf;
        proof {
            nibble_is_a_digit(value, i as int);
            reveal_strlit("0123456789abcdef");
        }
        text.push(HEX_DIGITS.get_char(digit as usize));
    }
    assert(hex16(value).take(16) =~= hex16(value));
    text
}

/// Derives a filesystem-safe socket name from a resource name.
///
/// Sanitization alone maps different names to one (`acme.com/gpu` and
/// `acme_com/gpu`), so a hash of the name as it was given is appended. The
/// readable part is cut off where needed, never the hash, so that the path of
/// the socket stays within the limit.
pub fn sanitize_socket_name(name: &str) -> (r: String)
    ensures
        r@ == socket_name(name@),
{
    let suffix: String = dashed_hex(fnv1a64(name.as_bytes()));
    proof {
        plugin_path_is_ascii();
        hash_suffix_is_safe(name@);
        safe_text_is_ascii(suffix@);
    }
    let budget: usize = MAX_SOCKET_PATH_LEN.saturating_sub(DEVICE_PLUGIN_PATH.len()).saturating_sub(
        suffix.as_str().len(),
    );
    let mut text = String::new();
    let mut taken: usize = 0;
    for c in chars: name.chars()
        invariant
            budget == name_budget(),
            chars.seq() == name@,
            taken == text@.len(),
            taken <= budget,
            text@ =~= sanitized(name@).take(if chars.index() <= budget { chars.index() as int } else { budget as int }),
    {
        if taken < budget {
            if invalid_char(c) {
                text.push('_');
            } else {
                text.push(c);
            }
            taken = taken + 1;
        }
    }
    text.append(suffix.as_str());
    text
}

/// The path of the kubelet's registration socket.
pub open spec fn kubelet_socket() -> Seq<char> {
    DEVICE_PLUGIN_PATH@ + KUBELET_SOCKET@
}

/// The last component of a Unix path, if there is one that names an entry of
/// its directory.
pub open spec fn file_name(path: Seq<char>) -> Option<Seq<char>> {
    let parts = components(path, '/', '.');
    if parts.len() == 0 || parts.last() == seq!['.'] || parts.last() == seq!['.', '.'] {
        None
    } else {
        Some(parts.last())
    }
}

/// Whether the piece of a path from `start` to `end` counts as a component. It
/// is the very first piece where `first` holds.
fn piece_counts(chars: &Vec<char>, start: usize, end: usize, first: bool) -> (r: bool)
    requires
        start <= end <= chars.len(),
    ensures
        r == ({
            let piece = chars@.subrange(start as int, end as int);
            !(piece.len() == 0 || (piece == seq!['.'] && !first))
        }),
{
    let is_dot: bool = end - start == 1 && chars[start] == '.';
    let ghost piece = chars@.subrange(start as int, end as int);
    assert(piece.len() == 1 ==> piece[0] == chars@[start as int]);
    assert(is_dot <==> piece =~= seq!['.']);
    start < end && (first || !is_dot)
}

/// The last component of a Unix path, or the whole path where there is none.
pub fn file_name_or_path(path: &str) -> (r: &str)
    ensures
        r@ == (match file_name(path@) {
            Some(name) => name,
            None => path@,
        }),
{
    let mut chars: Vec<char> = Vec::new();
    for c in it: path.chars()
        invariant
            it.seq() == path@,
            chars@ =~= path@.take(it.index()),
    {
        chars.push(c);
    }
    assert(chars@ =~= path@);
    // The piece that begins at `start`, and the last component before it.
    let mut start: usize = 0;
    let mut first: bool = true;
    let mut found: Option<(usize, usize)> = None;
    proof {
        assert(path@.take(0) =~= seq![]);
        assert(pieces(path@.take(0), '/').drop_last() =~= seq![]);
        assert(path@.subrange(0, 0) =~= seq![]);
    }
    for i in 0..chars.len()
        invariant
            chars@ == path@,
            start <= i,
            pieces(path@.take(i as int), '/').len() >= 1,
            pieces(path@.take(i as int), '/').last() == path@.subrange(start as int, i as int),
            first <==> pieces(path@.take(i as int), '/').len() == 1,
            is_last_of(found, path@, counting(pieces(path@.take(i as int), '/').drop_last(), '.')),
    {
        let ghost before = pieces(path@.take(i as int), '/');
        let ghost after = pieces(path@.take(i + 1), '/');
        assert(path@.take(i + 1).drop_last() =~= path@.take(i as int));
        if chars[i] == '/' {
            assert(after.drop_last() =~= before);
            if piece_counts(&chars, start, i, first) {
                found = Some((start, i));
            }
            start = i + 1;
            first = false;
            assert(path@.subrange(i + 1, i + 1) =~= seq![]);
        } else {
            assert(after.drop_last() =~= before.drop_last());
            assert(path@.subrange(start as int, i + 1) =~= path@.subrange(
                start as int,
                i as int,
            ).push(path@[i as int]));
        }
    }
    assert(path@.take(path@.len() as int) =~= path@);
    if piece_counts(&chars, start, chars.len(), first) {
        found = Some((start, chars.len()));
    }
    match found {
        Some((from, to)) => {
            let ghost last = path@.subrange(from as int, to as int);
            let is_dot: bool = to - from == 1 && chars[from] == '.';
            let is_parent: bool = to - from == 2 && chars[from] == '.' && chars[from + 1] == '.';
            assert(last.len() >= 1 ==> last[0] == chars@[from as int]);
            assert(last.len() >= 2 ==> last[1] == chars@[from + 1]);
            assert(is_dot <==> last =~= seq!['.']);
            assert(is_parent <==> last =~= seq!['.', '.']);
            if is_dot || is_parent {
                path
            } else {
                path.substring_char(from, to)
            }
        },
        None => path,
    }
}

/// `found` says where in `path` the last of `parts` stands, if there is one.
spec fn is_last_of(
    found: Option<(usize, usize)>,
    path: Seq<char>,
    parts: Seq<Seq<char>>,
) -> bool {
    match found {
        Some((from, to)) => {
            &&& from <= to <= path.len()
            &&& parts.len() > 0
            &&& parts.last() == path.subrange(from as int, to as int)
        },
        None => parts.len() == 0,
    }
}

/// Where in the digits a digit stands can be read off the digit.
proof fn digit_determines_its_value(value: int)
    requires
        0 <= value < 16,
    ensures
        HEX_DIGITS@[value] as int == if value < 10 {
            '0' as int + value
        } else {
            'a' as int + value - 10
        },
{
    reveal_strlit("0123456789abcdef");
    assert(HEX_DIGITS@[0] == '0');
    assert(HEX_DIGITS@[1] == '1');
    assert(HEX_DIGITS@[2] == '2');
    assert(HEX_DIGITS@[3] == '3');
    assert(HEX_DIGITS@[4] == '4');
    assert(HEX_DIGITS@[5] == '5');
    assert(HEX_DIGITS@[6] == '6');
    assert(HEX_DIGITS@[7] == '7');
    assert(HEX_DIGITS@[8] == '8');
    assert(HEX_DIGITS@[9] == '9');
    assert(HEX_DIGITS@[10] == 'a');
    assert(HEX_DIGITS@[11] == 'b');
    assert(HEX_DIGITS@[12] == 'c');
    assert(HEX_DIGITS@[13] == 'd');
    assert(HEX_DIGITS@[14] == 'e');
    assert(HEX_DIGITS@[15] == 'f');
}

/// The sixteen digits of a number determine it.
proof fn hex16_is_injective(a: u64, b: u64)
    requires
        hex16(a) == hex16(b),
    ensures
        a == b,
{
    assert forall|i: int| 0 <= i < 16 implies nibble(a, i) == #[trigger] nibble(b, i) by {
        nibble_is_a_digit(a, i);
        nibble_is_a_digit(b, i);
        digit_determines_its_value(nibble(a, i) as int);
        digit_determines_its_value(nibble(b, i) as int);
        assert(hex16(a)[i] == HEX_DIGITS@[nibble(a, i) as int]);
        assert(hex16(b)[i] == HEX_DIGITS@[nibble(b, i) as int]);
    }
    assert(nibble(a, 0) == nibble(b, 0));
    assert(nibble(a, 1) == nibble(b, 1));
    assert(nibble(a, 2) == nibble(b, 2));
    assert(nibble(a, 3) == nibble(b, 3));
    assert(nibble(a, 4) == nibble(b, 4));
    assert(nibble(a, 5) == nibble(b, 5));
    assert(nibble(a, 6) == nibble(b, 6));
    assert(nibble(a, 7) == nibble(b, 7));
    assert(nibble(a, 8) == nibble(b, 8));
    assert(nibble(a, 9) == nibble(b, 9));
    assert(nibble(a, 10) == nibble(b, 10));
    assert(nibble(a, 11) == nibble(b, 11));
    assert(nibble(a, 12) == nibble(b, 12));
    assert(nibble(a, 13) == nibble(b, 13));
    assert(nibble(a, 14) == nibble(b, 14));
    assert(nibble(a, 15) == nibble(b, 15));
    assert(a == b) by (bit_vector)
        requires
            (a >> 60u64) & 0xf == (b >> 60u64) & 0xf,
            (a >> 56u64) & 0xf == (b >> 56u64) & 0xf,
            (a >> 52u64) & 0xf == (b >> 52u64) & 0xf,
            (a >> 48u64) & 0xf == (b >> 48u64) & 0xf,
            (a >> 44u64) & 0xf == (b >> 44u64) & 0xf,
            (a >> 40u64) & 0xf == (b >> 40u64) & 0xf,
            (a >> 36u64) & 0xf == (b >> 36u64) & 0xf,
            (a >> 32u64) & 0xf == (b >> 32u64) & 0xf,
            (a >> 28u64) & 0xf == (b >> 28u64) & 0xf,
            (a >> 24u64) & 0xf == (b >> 24u64) & 0xf,
            (a >> 20u64) & 0xf == (b >> 20u64) & 0xf,
            (a >> 16u64) & 0xf == (b >> 16u64) & 0xf,
            (a >> 12u64) & 0xf == (b >> 12u64) & 0xf,
            (a >> 8u64) & 0xf == (b >> 8u64) & 0xf,
            (a >> 4u64) & 0xf == (b >> 4u64) & 0xf,
            (a >> 0u64) & 0xf == (b >> 0u64) & 0xf,
    ;
}

/// A socket name holds nothing but letters, digits, dashes and underscores, so
/// it is one entry of the socket directory whatever the resource is called.
pub proof fn socket_name_is_filesystem_safe(name: Seq<char>)
    ensures
        safe_text(socket_name(name)),
        !socket_name(name).contains('/'),
{
    plugin_path_is_ascii();
    hash_suffix_is_safe(name);
    let cut = readable_part(name).len() as int;
    assert forall|i: int| 0 <= i < socket_name(name).len() implies safe_char(
        #[trigger] socket_name(name)[i],
    ) by {
        if i < cut {
            assert(socket_name(name)[i] == sanitized(name)[i]);
        } else {
            assert(socket_name(name)[i] == hash_suffix(name)[i - cut]);
        }
    }
}

/// The path of a plugin's socket never exceeds the limit, in bytes.
pub proof fn socket_path_fits(name: Seq<char>)
    ensures
        encode_utf8(DEVICE_PLUGIN_PATH@ + socket_name(name)).len() <= MAX_SOCKET_PATH_LEN,
{
    plugin_path_is_ascii();
    hash_suffix_is_safe(name);
    socket_name_is_filesystem_safe(name);
    safe_text_is_ascii(socket_name(name));
    is_ascii_chars_concat(
        DEVICE_PLUGIN_PATH@ + socket_name(name),
        DEVICE_PLUGIN_PATH@,
        socket_name(name),
    );
    is_ascii_chars_encode_utf8(DEVICE_PLUGIN_PATH@ + socket_name(name));
}

/// The hash is never cut off: every socket name ends in the dash and the whole
/// hash of the resource name.
pub proof fn hash_survives_truncation(name: Seq<char>)
    ensures
        socket_name(name).len() >= 17,
        socket_name(name).skip(socket_name(name).len() - 17) == hash_suffix(name),
{
    hash_suffix_is_safe(name);
    assert(socket_name(name).skip(socket_name(name).len() - 17) =~= hash_suffix(name));
}

/// Two resources share a socket name exactly when their readable parts and
/// their hashes are both equal.
pub proof fn socket_names_collide_only_with_the_hash(a: Seq<char>, b: Seq<char>)
    ensures
        socket_name(a) == socket_name(b) <==> readable_part(a) == readable_part(b) && fnv1a64_hash(
            encode_utf8(a),
        ) == fnv1a64_hash(encode_utf8(b)),
{
    if socket_name(a) == socket_name(b) {
        hash_survives_truncation(a);
        hash_survives_truncation(b);
        let x = fnv1a64_hash(encode_utf8(a));
        let y = fnv1a64_hash(encode_utf8(b));
        assert(hash_suffix(a).skip(1) =~= hex16(x));
        assert(hash_suffix(b).skip(1) =~= hex16(y));
        hex16_is_injective(x, y);
        let cut = socket_name(a).len() - 17;
        hash_suffix_is_safe(a);
        hash_suffix_is_safe(b);
        assert(socket_name(a).take(cut) =~= readable_part(a));
        assert(socket_name(b).take(cut) =~= readable_part(b));
    }
}

/// The file name of a path that ends in a separator and a safe, non-empty name
/// is that name.
pub proof fn file_name_of_entry(directory: Seq<char>, name: Seq<char>)
    requires
        directory.len() == 0 || directory.last() == '/',
        name.len() > 0,
        safe_text(name),
    ensures
        file_name(directory + name) == Some(name),
{
    name_is_the_last_piece(directory, name);
    there_is_a_piece(directory, '/');
    assert(safe_char(name[0]));
}

/// A name without separators behind a directory is the last piece of the path.
proof fn name_is_the_last_piece(directory: Seq<char>, name: Seq<char>)
    requires
        directory.len() == 0 || directory.last() == '/',
        safe_text(name),
    ensures
        pieces(directory + name, '/') == pieces(directory, '/').drop_last().push(name),
    decreases name.len(),
{
    let parts = pieces(directory, '/');
    there_is_a_piece(directory, '/');
    if name.len() == 0 {
        assert(directory + name =~= directory);
        assert(parts.last() =~= name);
        assert(parts =~= parts.drop_last().push(name));
    } else {
        let shorter = name.drop_last();
        assert(safe_char(name.last()));
        assert((directory + name).drop_last() =~= directory + shorter);
        name_is_the_last_piece(directory, shorter);
        assert(parts.drop_last().push(shorter).drop_last() =~= parts.drop_last());
        assert(shorter.push(name.last()) =~= name);
    }
}

/// The file name of an entry of a directory is the name of the entry, but for
/// the two names that stand for directories: a dot gives the file name of the
/// directory, two dots give none.
pub proof fn file_name_names_the_entry(directory: Seq<char>, name: Seq<char>)
    requires
        !name.contains('/'),
    ensures
        file_name(directory.push('/') + name) == (if name.len() == 0 || name == seq!['.'] {
            file_name(directory)
        } else if name == seq!['.', '.'] {
            None
        } else {
            Some(name)
        }),
{
    name_in_a_directory_is_the_next_component(directory, name, '/', '.');
}

/// The file name of a path without separators is the path itself, unless it is
/// empty or stands for a directory.
pub proof fn file_name_of_a_bare_name(name: Seq<char>)
    requires
        !name.contains('/'),
    ensures
        file_name(name) == (if name.len() == 0 || name == seq!['.'] || name == seq!['.', '.'] {
            None
        } else {
            Some(name)
        }),
{
    name_is_its_only_component(name, '/', '.');
}

/// A plugin that listens on the socket of its resource announces the bare
/// socket name to the kubelet.
pub proof fn endpoint_file_name_is_the_socket_name(name: Seq<char>)
    ensures
        file_name(DEVICE_PLUGIN_PATH@ + socket_name(name)) == Some(socket_name(name)),
{
    reveal_strlit("/var/lib/kubelet/device-plugins/");
    socket_name_is_filesystem_safe(name);
    hash_survives_truncation(name);
    file_name_of_entry(DEVICE_PLUGIN_PATH@, socket_name(name));
}

/// The hash of nothing is the start value, and each byte behind is mixed into the
/// hash of those before: it is the exclusive or with the byte, times the prime,
/// modulo 2 to the 64, however many bytes come before.
pub proof fn each_byte_is_mixed_in(bytes: Seq<u8>, byte: u8)
    ensures
        fnv1a64_hash(Seq::empty()) == 0xcbf29ce484222325,
        fnv1a64_hash(bytes.push(byte)) as int == ((fnv1a64_hash(bytes) ^ (byte as u64)) as int
            * 0x100000001b3) % 0x1_0000_0000_0000_0000,
{
    assert(bytes.push(byte).drop_last() =~= bytes);
}

/// A factor that has an inverse can be undone: times the inverse, what is left is
/// the number that it was multiplied with.
proof fn factor_can_be_undone(x: int, p: int, inverse: int, k: int, m: int)
    requires
        0 <= x < m,
        p * inverse == 1 + k * m,
    ensures
        (x * p * inverse) % m == x,
{
    assert(x * p * inverse == (x * k) * m + x) by (nonlinear_arith)
        requires
            p * inverse == 1 + k * m,
    ;
    vstd::arithmetic::div_mod::lemma_fundamental_div_mod_converse(x * p * inverse, m, x * k, x);
}

/// Multiplication by a factor that has an inverse gives equal results for equal
/// numbers only.
proof fn factor_keeps_numbers_apart(x: int, y: int, p: int, inverse: int, k: int, m: int)
    requires
        0 <= x < m,
        0 <= y < m,
        p * inverse == 1 + k * m,
        (x * p) % m == (y * p) % m,
    ensures
        x == y,
{
    vstd::arithmetic::div_mod::lemma_mul_mod_noop_left(x * p, inverse, m);
    vstd::arithmetic::div_mod::lemma_mul_mod_noop_left(y * p, inverse, m);
    factor_can_be_undone(x, p, inverse, k, m);
    factor_can_be_undone(y, p, inverse, k, m);
}

/// What a byte is mixed in with does not get lost: from the byte and the result
/// one can tell what it was.
proof fn mixing_is_injective(a: u64, b: u64)
    requires
        a.wrapping_mul(FNV_PRIME) == b.wrapping_mul(FNV_PRIME),
    ensures
        a == b,
{
    factor_keeps_numbers_apart(
        a as int,
        b as int,
        0x100000001b3,
        0xce965057aff6957b,
        887285111055,
        0x1_0000_0000_0000_0000,
    );
}

/// Every byte counts in the hash: behind the same bytes another byte gives
/// another hash, and different hashes stay different whatever byte follows both.
pub proof fn every_byte_counts(a: Seq<u8>, b: Seq<u8>, x: u8, y: u8)
    ensures
        fnv1a64_hash(a.push(x)) == fnv1a64_hash(a.push(y)) <==> x == y,
        fnv1a64_hash(a.push(x)) == fnv1a64_hash(b.push(x)) <==> fnv1a64_hash(a) == fnv1a64_hash(b),
{
    assert(a.push(x).drop_last() =~= a);
    assert(a.push(y).drop_last() =~= a);
    assert(b.push(x).drop_last() =~= b);
    let h = fnv1a64_hash(a);
    let g = fnv1a64_hash(b);
    let u = x as u64;
    let v = y as u64;
    if fnv1a64_hash(a.push(x)) == fnv1a64_hash(a.push(y)) {
        mixing_is_injective(h ^ u, h ^ v);
        assert(u == v) by (bit_vector)
            requires
                h ^ u == h ^ v,
        ;
    }
    if fnv1a64_hash(a.push(x)) == fnv1a64_hash(b.push(x)) {
        mixing_is_injective(h ^ u, g ^ u);
        assert(h == g) by (bit_vector)
            requires
                h ^ u == g ^ u,
        ;
    }
}

/// Bytes of one length that differ in a single place have different hashes.
pub proof fn one_byte_makes_another_hash(a: Seq<u8>, b: Seq<u8>, k: int)
    requires
        a.len() == b.len(),
        0 <= k < a.len(),
        a[k] != b[k],
        forall|i: int| 0 <= i < a.len() && i != k ==> a[i] == #[trigger] b[i],
    ensures
        fnv1a64_hash(a) != fnv1a64_hash(b),
    decreases a.len(),
{
    let shorter_a = a.drop_last();
    let shorter_b = b.drop_last();
    assert(a =~= shorter_a.push(a.last()));
    assert(b =~= shorter_b.push(b.last()));
    if k == a.len() - 1 {
        assert(shorter_a =~= shorter_b);
        every_byte_counts(shorter_a, shorter_b, a.last(), b.last());
    } else {
        assert(a.last() == b[a.len() - 1]);
        one_byte_makes_another_hash(shorter_a, shorter_b, k);
        every_byte_counts(shorter_a, shorter_b, a.last(), b.last());
    }
}

/// Resource names whose bytes are as many and differ in a single place never share
/// a socket name, wherever the place is, even where the readable part is cut off
/// before it.
pub proof fn one_byte_makes_another_socket(a: Seq<char>, b: Seq<char>, k: int)
    requires
        encode_utf8(a).len() == encode_utf8(b).len(),
        0 <= k < encode_utf8(a).len(),
        encode_utf8(a)[k] != encode_utf8(b)[k],
        forall|i: int|
            0 <= i < encode_utf8(a).len() && i != k ==> encode_utf8(a)[i] == #[trigger] encode_utf8(
                b,
            )[i],
    ensures
        socket_name(a) != socket_name(b),
{
    one_byte_makes_another_hash(encode_utf8(a), encode_utf8(b), k);
    socket_names_collide_only_with_the_hash(a, b);
}

/// The readable part of a socket name is the resource name, character by
/// character, as far as the path has room for it, which is 58 characters: letters,
/// digits, dashes and underscores stand as they are, all else is an underscore.
pub proof fn readable_part_spells_the_name(name: Seq<char>, i: int)
    ensures
        socket_name(name).len() == (if name.len() <= 58 {
            name.len() + 17
        } else {
            75
        }),
        0 <= i < name.len() && i < 58 ==> socket_name(name)[i] == (if ('0' <= name[i] <= '9') || ('A' <= name[i] <= 'Z') || ('a'
            <= name[i] <= 'z') || name[i] == '-' || name[i] == '_' {
            name[i]
        } else {
            '_'
        }),
{
    plugin_path_is_ascii();
    hash_suffix_is_safe(name);
    if 0 <= i < name.len() && i < 58 {
        assert(readable_part(name)[i] == sanitized(name)[i]);
    }
}

/// A socket name ends in a dash and the sixteen digits of the hash of the whole
/// resource name, most significant digit first.
pub proof fn socket_name_ends_in_the_hash(name: Seq<char>, i: int)
    requires
        0 <= i < 16,
    ensures
        ({
            let socket = socket_name(name);
            let hash = fnv1a64_hash(encode_utf8(name)) as int;
            let digit = (hash / vstd::arithmetic::power::pow(16, (15 - i) as nat)) % 16;
            &&& socket.len() >= 17
            &&& socket[socket.len() - 17] == '-'
            &&& socket[socket.len() - 16 + i] as int == (if digit < 10 {
                '0' as int + digit
            } else {
                'a' as int + digit - 10
            })
        }),
{
    let hash = fnv1a64_hash(encode_utf8(name));
    let socket = socket_name(name);
    let cut = readable_part(name).len() as int;
    hash_suffix_is_safe(name);
    assert(socket.len() == cut + 17);
    assert(socket[cut] == hash_suffix(name)[0]);
    assert(socket[cut + 1 + i] == hash_suffix(name)[1 + i]);
    assert(hash_suffix(name)[1 + i] == hex16(hash)[i]);
    nibble_is_a_digit(hash, i);
    digit_determines_its_value(nibble(hash, i) as int);
    nibble_is_the_digit(hash, i);
}

/// The digits of a number in base sixteen, in terms of division.
proof fn nibble_is_the_digit(value: u64, i: int)
    requires
        0 <= i < 16,
    ensures
        nibble(value, i) as int == (value as int / vstd::arithmetic::power::pow(
            16,
            (15 - i) as nat,
        )) % 16,
{
    let shift = (60 - 4 * i) as u64;
    let shifted = value >> shift;
    vstd::bits::lemma_u64_shr_is_div(value, shift);
    assert(shifted & 0xf == shifted % 16) by (bit_vector);
    let k = (15 - i) as nat;
    vstd::arithmetic::power2::lemma_pow2(shift as nat);
    vstd::arithmetic::power2::lemma2_to64();
    vstd::arithmetic::power2::lemma_pow2(4);
    vstd::arithmetic::power::lemma_pow_multiplies(2, 4, k);
    assert(shift as nat == 4 * k);
    assert(vstd::arithmetic::power::pow(2, 4) == 16);
}

/// The path of a plugin's socket never takes more than 107 bytes.
pub proof fn socket_path_fits_the_system(name: Seq<char>)
    ensures
        encode_utf8("/var/lib/kubelet/device-plugins/"@ + socket_name(name)).len() <= 107,
{
    socket_path_fits(name);
}

} // verus!
