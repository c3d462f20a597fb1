//! Paths, settings and messages.

use vstd::prelude::*;
use vstd::utf8::encode_utf8;

use crate::cli::{failure, printed};
use crate::config::{configuration, Config, ConfigFile};
use crate::laws::texts::occurring_is_standing_between;
use crate::paths::{
    ascii, config_path, icon_dir, icon_path, is_ascii, joined, lemma_encode_ascii, lossy_text,
    path_text, socket_path,
};
use crate::text::occurs;

verus! {

/// Whether `path` is `dir` with `leaf` behind it and exactly one slash between
/// them, or no slash where there is no directory.
pub open spec fn is_below(path: Seq<u8>, dir: Seq<u8>, leaf: Seq<u8>) -> bool {
    &&& dir.len() == 0 ==> path == leaf
    &&& dir.len() > 0 && dir.last() == 47 ==> path == dir + leaf
    &&& dir.len() > 0 && dir.last() != 47 ==> path == dir + seq![47u8] + leaf
}

proof fn lemma_joined(dir: Seq<u8>, leaf: Seq<char>)
    requires
        is_ascii(leaf),
    ensures
        is_below(joined(dir, ascii(leaf)), dir, encode_utf8(leaf)),
{
    lemma_encode_ascii(leaf);
    if dir.len() == 0 {
        assert(dir + ascii(leaf) == ascii(leaf));
    } else {
        assert(dir.push(47) + ascii(leaf) == dir + seq![47u8] + ascii(leaf));
    }
}

/// The socket is `tray-host.sock` in the runtime directory, whatever bytes that
/// has, or in `/tmp`.
pub proof fn the_socket_is_below_the_runtime_directory(dir: Seq<u8>)
    ensures
        is_below(socket_path(Some(dir)), dir, encode_utf8("tray-host.sock"@)),
        socket_path(None) == encode_utf8("/tmp/tray-host.sock"@),
{
    reveal_strlit("tray-host.sock");
    reveal_strlit("/tmp/tray-host.sock");
    lemma_joined(dir, "tray-host.sock"@);
    lemma_encode_ascii("/tmp/tray-host.sock"@);
}

/// Icons are kept in `icons` in `tray-host` in the cache directory, whatever bytes
/// that has, or in `/tmp`. The file of an icon is in there.
pub proof fn icons_are_below_the_cache_directory(dir: Seq<u8>, file_name: Seq<char>)
    requires
        is_ascii(file_name),
    ensures
        exists|own: Seq<u8>| #[trigger]
            is_below(own, dir, encode_utf8("tray-host"@)) && is_below(
                icon_dir(Some(dir)),
                own,
                encode_utf8("icons"@),
            ),
        icon_dir(None) == encode_utf8("/tmp/tray-host/icons"@),
        is_below(icon_path(Some(dir), file_name), icon_dir(Some(dir)), encode_utf8(file_name)),
        is_below(icon_path(None, file_name), icon_dir(None), encode_utf8(file_name)),
{
    reveal_strlit("tray-host");
    reveal_strlit("icons");
    reveal_strlit("/tmp");
    reveal_strlit("/tmp/tray-host/icons");
    let own = joined(dir, ascii("tray-host"@));
    lemma_joined(dir, "tray-host"@);
    lemma_joined(own, "icons"@);
    assert(is_below(own, dir, encode_utf8("tray-host"@)));
    lemma_joined(icon_dir(Some(dir)), file_name);
    lemma_joined(icon_dir(None), file_name);
    lemma_encode_ascii("/tmp/tray-host/icons"@);
    assert(icon_dir(None) == ascii("/tmp/tray-host/icons"@));
}

/// The configuration file is `tray-host/config.toml` in the configuration
/// directory, whatever bytes that has; without one there is none.
pub proof fn the_settings_are_below_the_configuration_directory(dir: Seq<u8>)
    ensures
        config_path(Some(dir)) matches Ok(path) && is_below(
            path,
            dir,
            encode_utf8("tray-host/config.toml"@),
        ),
        config_path(None) == Err::<Seq<u8>, Seq<char>>(
            "Couldn't determine default config directory."@,
        ),
{
    reveal_strlit("tray-host/config.toml");
    lemma_joined(dir, "tray-host/config.toml"@);
}

/// The bytes of an ASCII text are its encoding, and a path that encodes a text is
/// shown as that text.
pub proof fn a_path_is_shown_as_it_is_encoded(s: Seq<char>, path: Seq<u8>)
    ensures
        is_ascii(s) ==> ascii(s) == encode_utf8(s),
        is_ascii(s) <==> forall|i: int| 0 <= i < s.len() ==> (#[trigger] s[i]) as int <= 127,
        path_text(encode_utf8(s)) == s,
        !vstd::utf8::valid_utf8(path) ==> path_text(path) == lossy_text(path),
{
    vstd::utf8::encode_utf8_valid_utf8(s);
    vstd::utf8::encode_utf8_decode_utf8(s);
    if is_ascii(s) {
        lemma_encode_ascii(s);
    }
}

/// What a configuration says of sorting is what is done; what it does not say,
/// and what is not there unless it was asked for, is not to sort. A file that
/// cannot be read is an error with its reason.
pub proof fn settings_are_what_the_file_says(
    asked_for: bool,
    sorting: bool,
    message: String,
    path: String,
)
    ensures
        configuration(asked_for, ConfigFile::Parsed(Some(sorting))) matches Ok(c) && c.sorting
            == sorting,
        configuration(asked_for, ConfigFile::Parsed(None)) matches Ok(c) && !c.sorting,
        configuration(false, ConfigFile::Absent(path)) matches Ok(c) && !c.sorting,
        configuration(true, ConfigFile::Absent(path)) == Err::<Config, Seq<char>>(
            "configuration file \""@ + path@ + "\" not found"@,
        ),
        configuration(asked_for, ConfigFile::Unreadable(message)) == Err::<Config, Seq<char>>(
            message@,
        ),
{
}

/// A reply is printed with a line break behind it; of an empty one nothing is.
pub proof fn a_reply_is_printed_on_its_line(reply: Seq<char>)
    ensures
        reply.len() > 0 ==> printed(reply) == reply + seq!['\n'],
        reply.len() == 0 ==> printed(reply).len() == 0,
{
    assert(reply.push('\n') == reply + seq!['\n']);
}

/// An error that speaks of a refused connection or of a missing file, wherever in
/// it, is taken for a daemon that is not running, and the socket is named. Any
/// other error is shown as it is.
pub proof fn a_missing_daemon_is_explained(
    front: Seq<char>,
    back: Seq<char>,
    error: Seq<char>,
    socket: Seq<char>,
)
    ensures
        failure(front + "connection refused"@ + back, socket)
            == "Error: daemon is not running.\nStart it with: tray-host daemon &\n(socket path: "@
            + socket + seq![')'],
        failure(front + "No such file"@ + back, socket)
            == "Error: daemon is not running.\nStart it with: tray-host daemon &\n(socket path: "@
            + socket + seq![')'],
        (forall|a: Seq<char>, b: Seq<char>|
            error != #[trigger] (a + "connection refused"@ + b)) && (forall|
            a: Seq<char>,
            b: Seq<char>,
        | error != #[trigger] (a + "No such file"@ + b)) ==> failure(error, socket) == "Error: "@
            + error,
{
    let start =
        "Error: daemon is not running.\nStart it with: tray-host daemon &\n(socket path: "@;
    assert(start + socket.push(')') == start + socket + seq![')']);
    occurring_is_standing_between(error, front, "connection refused"@, back);
    occurring_is_standing_between(error, front, "No such file"@, back);
    if failure(error, socket) != "Error: "@ + error {
        assert(occurs(error, "connection refused"@) || occurs(error, "No such file"@));
    }
}

} // verus!
