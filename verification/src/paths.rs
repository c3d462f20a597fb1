//! Where the daemon keeps its socket, its icons and its configuration.
//!
//! The base directories come from the environment; everything below them is
//! decided here. A path is a sequence of bytes, since the name of a directory
//! need not be text.

use vstd::prelude::*;
use vstd::utf8::{
    char_is_scalar, decode_utf8, encode_scalar, encode_utf8, encode_utf8_decode_utf8,
    encode_utf8_valid_utf8, valid_utf8,
};

use crate::text::{copy_text, to_chars};

verus! {

/// The bytes of an ASCII text.
pub open spec fn ascii(s: Seq<char>) -> Seq<u8> {
    Seq::new(s.len(), |i: int| (s[i] as int) as u8)
}

/// Whether `s` is ASCII.
pub open spec fn is_ascii(s: Seq<char>) -> bool {
    forall|i: int| 0 <= i < s.len() ==> (#[trigger] s[i]) as int <= 127
}

fn ascii_byte(c: char) -> (b: u8)
    requires
        c as int <= 127,
    ensures
        b == c as int,
{
    c as u8
}

fn push_ascii(v: &mut Vec<u8>, s: &str)
    requires
        is_ascii(s@),
    ensures
        final(v)@ == old(v)@ + ascii(s@),
{
    let chars = to_chars(s);
    let mut i: usize = 0;
    assert(ascii(s@).take(0) == Seq::<u8>::empty());
    assert(v@ + Seq::<u8>::empty() == v@);
    while i < chars.len()
        invariant
            i <= chars@.len(),
            chars@ == s@,
            is_ascii(s@),
            v@ == old(v)@ + ascii(s@).take(i as int),
        decreases chars@.len() - i,
    {
        v.push(ascii_byte(chars[i]));
        i += 1;
        assert(ascii(s@).take(i as int) == ascii(s@).take(i - 1).push(ascii(s@)[i - 1]));
        assert(v@ == old(v)@ + ascii(s@).take(i as int));
    }
    assert(ascii(s@).take(i as int) == ascii(s@));
}

/// The path of `leaf` in the directory `base`.
pub open spec fn joined(base: Seq<u8>, leaf: Seq<u8>) -> Seq<u8> {
    if base.len() == 0 || base.last() == 47 {
        base + leaf
    } else {
        base.push(47) + leaf
    }
}

fn join(base: Vec<u8>, leaf: &str) -> (r: Vec<u8>)
    requires
        is_ascii(leaf@),
    ensures
        r@ == joined(base@, ascii(leaf@)),
{
    let mut r = base;
    let n: usize = r.len();
    if n > 0 && r[n - 1] != 47 {
        r.push(47);
    }
    push_ascii(&mut r, leaf);
    r
}

/// A copy of the bytes of a path.
pub(crate) fn copy_bytes(v: &Vec<u8>) -> (r: Vec<u8>)
    ensures
        r@ == v@,
{
    let mut r: Vec<u8> = Vec::new();
    let mut i: usize = 0;
    while i < v.len()
        invariant
            i <= v@.len(),
            r@ == v@.take(i as int),
        decreases v@.len() - i,
    {
        r.push(v[i]);
        i += 1;
        assert(v@.take(i as int) == v@.take(i - 1).push(v@[i - 1]));
    }
    assert(v@.take(i as int) == v@);
    r
}

/// The bytes of an optional path.
pub open spec fn opt_bytes(o: Option<Vec<u8>>) -> Option<Seq<u8>> {
    match o {
        Some(v) => Some(v@),
        None => None,
    }
}

/// `dirs::runtime_dir`: the user's directory for runtime files. It depends on
/// the environment, so nothing is said of it.
#[verifier::external_body]
fn runtime_dir() -> (r: Option<Vec<u8>>)
{
    match dirs::runtime_dir() {
        Some(dir) => Some(dir.into_os_string().into_encoded_bytes()),
        None => None,
    }
}

/// `dirs::cache_dir`: the user's directory for caches. It depends on the
/// environment, so nothing is said of it.
#[verifier::external_body]
pub(crate) fn cache_dir() -> (r: Option<Vec<u8>>)
{
    match dirs::cache_dir() {
        Some(dir) => Some(dir.into_os_string().into_encoded_bytes()),
        None => None,
    }
}

/// `dirs::config_dir`: the user's directory for configuration files. It depends
/// on the environment, so nothing is said of it.
#[verifier::external_body]
fn config_dir() -> (r: Option<Vec<u8>>)
{
    match dirs::config_dir() {
        Some(dir) => Some(dir.into_os_string().into_encoded_bytes()),
        None => None,
    }
}

/// The text that `String::from_utf8_lossy` makes of bytes.
pub uninterp spec fn lossy_text(bytes: Seq<u8>) -> Seq<char>;

/// `String::from_utf8_lossy`: the text that the bytes encode in UTF-8. Bytes
/// that encode none are replaced, in a way that is a function of the bytes.
#[verifier::external_body]
fn from_utf8_lossy(bytes: &Vec<u8>) -> (r: String)
    ensures
        r@ == lossy_text(bytes@),
        valid_utf8(bytes@) ==> r@ == decode_utf8(bytes@),
{
    String::from_utf8_lossy(bytes).into_owned()
}

/// A path as text: what its bytes encode in UTF-8, with replacements where they
/// encode nothing.
pub open spec fn path_text(path: Seq<u8>) -> Seq<char> {
    if valid_utf8(path) {
        decode_utf8(path)
    } else {
        lossy_text(path)
    }
}

/// A path as text.
pub fn path_to_text(path: &Vec<u8>) -> (r: String)
    ensures
        r@ == path_text(path@),
{
    from_utf8_lossy(path)
}

/// The path of the daemon's socket: `tray-host.sock` in the runtime directory,
/// or in `/tmp` where there is none.
pub open spec fn socket_path(runtime: Option<Seq<u8>>) -> Seq<u8> {
    match runtime {
        Some(dir) => joined(dir, ascii("tray-host.sock"@)),
        None => ascii("/tmp/tray-host.sock"@),
    }
}

/// The path of the daemon's socket, given the runtime directory.
pub fn socket_path_in(runtime: &Option<Vec<u8>>) -> (r: Vec<u8>)
    ensures
        r@ == socket_path(opt_bytes(*runtime)),
{
    proof {
        reveal_strlit("tray-host.sock");
        reveal_strlit("/tmp/tray-host.sock");
    }
    match runtime {
        Some(dir) => join(copy_bytes(dir), "tray-host.sock"),
        None => {
            let mut r: Vec<u8> = Vec::new();
            push_ascii(&mut r, "/tmp/tray-host.sock");
            r
        },
    }
}

/// The path of the daemon's socket.
pub fn default_socket_path() -> (r: Vec<u8>)
    ensures
        exists|runtime: Option<Seq<u8>>| r@ == #[trigger] socket_path(runtime),
{
    let runtime = runtime_dir();
    let r = socket_path_in(&runtime);
    assert(r@ == socket_path(opt_bytes(runtime)));
    r
}

/// The directory of cached icons: `tray-host/icons` in the cache directory, or
/// in `/tmp` where there is none.
pub open spec fn icon_dir(cache: Option<Seq<u8>>) -> Seq<u8> {
    let base = match cache {
        Some(dir) => dir,
        None => ascii("/tmp"@),
    };
    joined(joined(base, ascii("tray-host"@)), ascii("icons"@))
}

/// The directory of cached icons, given the cache directory.
pub fn icon_cache_dir_in(cache: &Option<Vec<u8>>) -> (r: Vec<u8>)
    ensures
        r@ == icon_dir(opt_bytes(*cache)),
{
    proof {
        reveal_strlit("/tmp");
        reveal_strlit("tray-host");
        reveal_strlit("icons");
    }
    let base: Vec<u8> = match cache {
        Some(dir) => copy_bytes(dir),
        None => {
            let mut r: Vec<u8> = Vec::new();
            push_ascii(&mut r, "/tmp");
            r
        },
    };
    join(join(base, "tray-host"), "icons")
}

/// The directory of cached icons.
pub fn icon_cache_dir() -> (r: Vec<u8>)
    ensures
        exists|cache: Option<Seq<u8>>| r@ == #[trigger] icon_dir(cache),
{
    let cache = cache_dir();
    let r = icon_cache_dir_in(&cache);
    assert(r@ == icon_dir(opt_bytes(cache)));
    r
}

/// The path of the cached icon `file_name`: in the directory of cached icons.
pub open spec fn icon_path(cache: Option<Seq<u8>>, file_name: Seq<char>) -> Seq<u8> {
    joined(icon_dir(cache), ascii(file_name))
}

/// The path of the cached icon `file_name`, given the cache directory.
pub fn icon_path_in(cache: &Option<Vec<u8>>, file_name: &str) -> (r: Vec<u8>)
    requires
        is_ascii(file_name@),
    ensures
        r@ == icon_path(opt_bytes(*cache), file_name@),
{
    join(icon_cache_dir_in(cache), file_name)
}

/// A path, or the message for there being none.
pub open spec fn path_result(r: Result<Vec<u8>, String>) -> Result<Seq<u8>, Seq<char>> {
    match r {
        Ok(p) => Ok(p@),
        Err(e) => Err(e@),
    }
}

/// The path of the configuration file: `tray-host/config.toml` in the
/// configuration directory. Without such a directory there is none.
pub open spec fn config_path(config: Option<Seq<u8>>) -> Result<Seq<u8>, Seq<char>> {
    match config {
        Some(dir) => Ok(joined(dir, ascii("tray-host/config.toml"@))),
        None => Err("Couldn't determine default config directory."@),
    }
}

/// The path of the configuration file, given the configuration directory.
pub fn config_path_in(config: &Option<Vec<u8>>) -> (r: Result<Vec<u8>, String>)
    ensures
        path_result(r) == config_path(opt_bytes(*config)),
{
    proof {
        reveal_strlit("tray-host/config.toml");
    }
    match config {
        Some(dir) => Ok(join(copy_bytes(dir), "tray-host/config.toml")),
        None => Err(copy_text("Couldn't determine default config directory.")),
    }
}

/// The path of the configuration file.
pub fn get_default_config_path() -> (r: Result<Vec<u8>, String>)
    ensures
        exists|config: Option<Seq<u8>>| path_result(r) == #[trigger] config_path(config),
{
    let config = config_dir();
    let r = config_path_in(&config);
    assert(path_result(r) == config_path(opt_bytes(config)));
    r
}

// ---------------------------------------------------------------------------
// Paths that are text
// ---------------------------------------------------------------------------

/// The path of `leaf` in the directory `base`, where both are text.
pub open spec fn joined_text(base: Seq<char>, leaf: Seq<char>) -> Seq<char> {
    if base.len() == 0 || base.last() == '/' {
        base + leaf
    } else {
        base.push('/') + leaf
    }
}

proof fn lemma_encode_add(a: Seq<char>, b: Seq<char>)
    ensures
        encode_utf8(a + b) == encode_utf8(a) + encode_utf8(b),
    decreases a.len(),
{
    if a.len() == 0 {
        assert(a + b == b);
        assert(encode_utf8(a) + encode_utf8(b) == encode_utf8(b));
    } else {
        assert((a + b)[0] == a[0]);
        assert((a + b).drop_first() == a.drop_first() + b);
        lemma_encode_add(a.drop_first(), b);
        assert(encode_utf8(a + b) == encode_utf8(a) + encode_utf8(b));
    }
}

/// The encoding of one character: an ASCII character is its own byte, and no
/// other ends with an ASCII byte.
proof fn lemma_encode_char(c: char)
    ensures
        encode_utf8(seq![c]).len() > 0,
        c as int <= 127 ==> encode_utf8(seq![c]) == seq![(c as int) as u8],
        c as int <= 127 ==> encode_utf8(seq![c]).last() == c as int,
        c as int > 127 ==> encode_utf8(seq![c]).last() > 127,
{
    char_is_scalar(c);
    let n = c as u32;
    assert(seq![c].drop_first() == Seq::<char>::empty());
    reveal_with_fuel(encode_utf8, 2);
    assert(encode_utf8(seq![c]) == encode_scalar(n));
    assert(n <= 0x7f ==> (n & 0x7f) as u8 == n as u8) by (bit_vector);
    assert((0x80 | (n & 0x3f) as u8) > 127) by (bit_vector);
}

pub(crate) proof fn lemma_encode_ascii(s: Seq<char>)
    requires
        is_ascii(s),
    ensures
        encode_utf8(s) == ascii(s),
    decreases s.len(),
{
    if s.len() == 0 {
        assert(ascii(s) == Seq::<u8>::empty());
    } else {
        let head = s.drop_last();
        let last = seq![s.last()];
        assert forall|i: int| 0 <= i < head.len() implies (#[trigger] head[i]) as int <= 127 by {
            assert(head[i] == s[i]);
        }
        assert(s == head + last);
        assert(s[s.len() - 1] as int <= 127);
        lemma_encode_ascii(head);
        lemma_encode_add(head, last);
        lemma_encode_char(s.last());
        assert(ascii(s) == ascii(head) + seq![(s.last() as int) as u8]);
    }
}

proof fn lemma_encode_joined(dir: Seq<char>, leaf: Seq<char>)
    requires
        is_ascii(leaf),
    ensures
        joined(encode_utf8(dir), ascii(leaf)) == encode_utf8(joined_text(dir, leaf)),
{
    lemma_encode_ascii(leaf);
    if dir.len() == 0 {
        lemma_encode_add(dir, leaf);
    } else {
        let head = dir.drop_last();
        let last = seq![dir.last()];
        assert(dir == head + last);
        lemma_encode_add(head, last);
        lemma_encode_char(dir.last());
        assert(encode_utf8(dir).last() == encode_utf8(last).last());
        if dir.last() == '/' {
            assert(encode_utf8(last).last() == 47);
            lemma_encode_add(dir, leaf);
        } else {
            assert(dir.last() as int != 47);
            assert(encode_utf8(dir).last() != 47);
            lemma_encode_char('/');
            lemma_encode_add(dir, seq!['/']);
            assert(dir.push('/') == dir + seq!['/']);
            assert(encode_utf8(dir.push('/')) == encode_utf8(dir).push(47));
            lemma_encode_add(dir.push('/'), leaf);
        }
    }
}

/// The text of the path of a file in a directory that is text is what joining
/// the texts gives.
pub proof fn a_path_of_text_is_text(dir: Seq<char>, leaf: Seq<char>)
    requires
        is_ascii(leaf),
    ensures
        path_text(joined(encode_utf8(dir), ascii(leaf))) == joined_text(dir, leaf),
{
    lemma_encode_joined(dir, leaf);
    encode_utf8_valid_utf8(joined_text(dir, leaf));
    encode_utf8_decode_utf8(joined_text(dir, leaf));
}

/// The path of a cached icon, as text: `tray-host/icons` and the name of the
/// file below the cache directory, if that is text, or below `/tmp`.
pub proof fn an_icon_path_is_text(dir: Seq<char>, file_name: Seq<char>)
    requires
        is_ascii(file_name),
    ensures
        path_text(icon_path(Some(encode_utf8(dir)), file_name)) == joined_text(
            joined_text(joined_text(dir, "tray-host"@), "icons"@),
            file_name,
        ),
        path_text(icon_path(None, file_name)) == "/tmp/tray-host/icons/"@ + file_name,
{
    reveal_strlit("tray-host");
    reveal_strlit("icons");
    reveal_strlit("/tmp");
    reveal_strlit("/tmp/tray-host/icons/");
    lemma_encode_joined(dir, "tray-host"@);
    lemma_encode_joined(joined_text(dir, "tray-host"@), "icons"@);
    a_path_of_text_is_text(joined_text(joined_text(dir, "tray-host"@), "icons"@), file_name);
    let tmp = "/tmp"@;
    lemma_encode_ascii(tmp);
    lemma_encode_joined(tmp, "tray-host"@);
    lemma_encode_joined(joined_text(tmp, "tray-host"@), "icons"@);
    let icons = joined_text(joined_text(tmp, "tray-host"@), "icons"@);
    a_path_of_text_is_text(icons, file_name);
    assert(icons.push('/') == "/tmp/tray-host/icons/"@);
}

} // verus!
