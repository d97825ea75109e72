//! The control plane: commands, and the course of one connection to the control socket.

use crate::encoding::{decode_lossy, lossy_text};
use crate::text::{
    blank, chars_of, contains, decimal, is_white_space, law_blank_text_has_no_word,
    law_capitals_of_a_spelling, law_contains_means_a_part, law_first_word, law_trim_keeps_words,
    push_decimal, same_text, solid, spells, string_of, texts, to_uppercase, trim, trim_chars, trim_end,
    upper_text, white_space, word_len, words, words_of,
};
use vstd::prelude::*;
use vstd::slice::slice_subrange;
use vstd::utf8::{encode_utf8, encode_utf8_decode_utf8, encode_utf8_valid_utf8};

verus! {

/// The directory of the control socket.
pub const SOCKET_DIR: &'static str = "/var/run/bouclier-bleu";

/// The control socket.
pub const SOCKET_PATH: &'static str = "/var/run/bouclier-bleu/control.sock";

/// The umask under which the control socket is created.
pub const SOCKET_UMASK: u32 = 0o177;

/// How many bytes of a request are read.
pub const REQUEST_LIMIT: u64 = 1024;

/// How long a peer may take to send a request or to take a reply, in milliseconds.
pub const STREAM_TIMEOUT_MS: u64 = 1000;

/// How long the engine may take to carry out a command, in seconds.
pub const REPLY_TIMEOUT_SECS: u64 = 5;

/// How many commands may wait for the engine.
pub const QUEUE_DEPTH: usize = 128;

/// A command for the engine.
pub enum DaemonCmd {
    /// Report on the daemon.
    Status,
    /// List the modules.
    List,
    /// Enable the module of this slug.
    Enable(String),
    /// Disable the module of this slug.
    Disable(String),
}

/// The model of a command.
pub enum CmdView {
    /// Report on the daemon.
    Status,
    /// List the modules.
    List,
    /// Enable the module of this slug.
    Enable(Seq<char>),
    /// Disable the module of this slug.
    Disable(Seq<char>),
}

impl View for DaemonCmd {
    type V = CmdView;

    open spec fn view(&self) -> CmdView {
        match self {
            DaemonCmd::Status => CmdView::Status,
            DaemonCmd::List => CmdView::List,
            DaemonCmd::Enable(target) => CmdView::Enable(target@),
            DaemonCmd::Disable(target) => CmdView::Disable(target@),
        }
    }
}

/// A command on its way to the engine, with the channel that takes the reply.
pub struct IpcMessage<R> {
    /// The command.
    pub cmd: DaemonCmd,
    /// Takes the reply.
    pub reply: R,
}

/// The part of what a peer sends that is read: the first `REQUEST_LIMIT` bytes.
pub open spec fn received(sent: Seq<u8>) -> Seq<u8> {
    if sent.len() > REQUEST_LIMIT {
        sent.take(REQUEST_LIMIT as int)
    } else {
        sent
    }
}

/// The words of a raw request.
pub open spec fn request_words(sent: Seq<u8>) -> Seq<Seq<char>> {
    words(trim(lossy_text(received(sent))))
}

/// The command that a verb and its argument stand for, if any. The verb is read without regard
/// to case, further words are ignored.
pub open spec fn command_of(verb: Seq<char>, argument: Option<Seq<char>>) -> Option<CmdView> {
    if verb == "STATUS"@ {
        Some(CmdView::Status)
    } else if verb == "LIST"@ {
        Some(CmdView::List)
    } else if verb == "ENABLE"@ && argument is Some {
        Some(CmdView::Enable(argument->0))
    } else if verb == "DISABLE"@ && argument is Some {
        Some(CmdView::Disable(argument->0))
    } else {
        None
    }
}

/// The second word, if there is one.
pub open spec fn argument_of(request: Seq<Seq<char>>) -> Option<Seq<char>> {
    if request.len() > 1 {
        Some(request[1])
    } else {
        None
    }
}

/// The command that the words of a request stand for, if any.
pub open spec fn requested(request: Seq<Seq<char>>) -> Option<CmdView> {
    command_of(upper_text(request[0]), argument_of(request))
}

/// The command that a verb, already in uppercase, and its argument stand for.
pub fn command_for(verb: &str, argument: Option<&str>) -> (r: Option<DaemonCmd>)
    ensures
        ({
            let expected = command_of(
                verb@,
                match argument {
                    Some(word) => Some(word@),
                    None => None,
                },
            );
            &&& r is Some <==> expected is Some
            &&& r matches Some(cmd) ==> expected == Some(cmd@)
        }),
{
    if same_text(verb, "STATUS") {
        return Some(DaemonCmd::Status);
    }
    if same_text(verb, "LIST") {
        return Some(DaemonCmd::List);
    }
    match argument {
        Some(word) => if same_text(verb, "ENABLE") {
            Some(DaemonCmd::Enable(word.to_owned()))
        } else if same_text(verb, "DISABLE") {
            Some(DaemonCmd::Disable(word.to_owned()))
        } else {
            None
        },
        None => None,
    }
}

/// Parses a raw request, of which only the first `REQUEST_LIMIT` bytes count. One without any word
/// is no command and no error.
pub fn parse_command(buffer: &[u8]) -> (r: Result<Option<DaemonCmd>, &'static str>)
    ensures
        r matches Ok(None) <==> request_words(buffer@).len() == 0,
        r is Err <==> request_words(buffer@).len() > 0 && requested(request_words(buffer@)) is None,
        r matches Ok(Some(cmd)) ==> requested(request_words(buffer@)) == Some(cmd@),
        r matches Err(e) ==> e@ == "Unknown command"@,
{
    let limit: usize = REQUEST_LIMIT as usize;
    let text = if buffer.len() > limit {
        let head = slice_subrange(buffer, 0, limit);
        assert(head@ =~= received(buffer@));
        decode_lossy(head)
    } else {
        decode_lossy(buffer)
    };
    let chars = chars_of(text.as_str());
    let parts = words_of(&trim_chars(&chars));
    let ghost request = request_words(buffer@);
    assert(texts(parts@) == request);
    assert(parts@.len() == request.len());
    if parts.len() == 0 {
        return Ok(None);
    }
    assert(request[0] == parts@[0]@);
    let verb = to_uppercase(parts[0].as_str());
    let argument = if parts.len() > 1 {
        assert(request[1] == parts@[1]@);
        Some(parts[1].as_str())
    } else {
        None
    };
    match command_for(verb.as_str(), argument) {
        Some(cmd) => Ok(Some(cmd)),
        None => Err("Unknown command"),
    }
}

/// The request that stands for a command, in the model.
pub open spec fn payload_text(cmd: CmdView) -> Seq<char> {
    match cmd {
        CmdView::Status => "STATUS"@,
        CmdView::List => "LIST"@,
        CmdView::Enable(target) => "ENABLE "@ + target,
        CmdView::Disable(target) => "DISABLE "@ + target,
    }
}

/// The request that a client sends for a command.
pub fn payload(cmd: &DaemonCmd) -> (r: String)
    ensures
        r@ == payload_text(cmd@),
{
    match cmd {
        DaemonCmd::Status => "STATUS".to_owned(),
        DaemonCmd::List => "LIST".to_owned(),
        DaemonCmd::Enable(target) => {
            let mut out = "ENABLE ".to_owned();
            out.append(target.as_str());
            out
        },
        DaemonCmd::Disable(target) => {
            let mut out = "DISABLE ".to_owned();
            out.append(target.as_str());
            out
        },
    }
}

/// A reply as a client shows it: without the whitespace at its end.
pub fn shown_reply(response: &str) -> (r: String)
    ensures
        r@ == trim_end(response@),
{
    let chars = chars_of(response);
    let mut end: usize = chars.len();
    assert(chars@.take(end as int) =~= response@);
    while end > 0 && white_space(chars[end - 1])
        invariant
            end <= chars@.len(),
            trim_end(chars@.take(end as int)) == trim_end(response@),
        decreases end,
    {
        assert(chars@.take(end as int).drop_last() =~= chars@.take(end - 1));
        end = end - 1;
    }
    let out = string_of(chars.as_slice(), 0, end);
    assert(out@ =~= chars@.take(end as int));
    out
}

/// Whether a text is one word.
pub open spec fn is_word(s: Seq<char>) -> bool {
    &&& s.len() > 0
    &&& forall|i: int| 0 <= i < s.len() ==> !is_white_space(#[trigger] s[i])
}

/// Whether the argument of a command, if it has one, is one word.
pub open spec fn well_addressed(cmd: CmdView) -> bool {
    match cmd {
        CmdView::Status | CmdView::List => true,
        CmdView::Enable(target) | CmdView::Disable(target) => is_word(target),
    }
}

proof fn lemma_word_len(s: Seq<char>, n: int)
    requires
        0 <= n <= s.len(),
        forall|i: int| 0 <= i < n ==> !is_white_space(#[trigger] s[i]),
        n < s.len() ==> is_white_space(s[n]),
    ensures
        word_len(s) == n,
    decreases s.len(),
{
    if n > 0 {
        lemma_word_len(s.drop_first(), n - 1);
    }
}

proof fn lemma_one_word(s: Seq<char>)
    requires
        is_word(s),
    ensures
        words(s) == seq![s],
        trim(s) == s,
{
    lemma_word_len(s, s.len() as int);
    assert(s.take(s.len() as int) =~= s);
    assert(words(s.skip(s.len() as int)) =~= Seq::empty());
    assert(!is_white_space(s[0]) && !is_white_space(s.last()));
    assert(words(s) =~= seq![s]);
}

proof fn lemma_two_words(verb: Seq<char>, target: Seq<char>)
    requires
        is_word(verb),
        is_word(target),
    ensures
        words(verb + seq![' '] + target) == seq![verb, target],
        trim(verb + seq![' '] + target) == verb + seq![' '] + target,
{
    let s = verb + seq![' '] + target;
    let n = verb.len() as int;
    assert forall|i: int| 0 <= i < n implies !is_white_space(#[trigger] s[i]) by {
        assert(!is_white_space(verb[i]));
    }
    lemma_word_len(s, n);
    assert(s.take(n) =~= verb);
    let rest = s.skip(n);
    assert(rest[0] == ' ');
    assert(rest.drop_first() =~= target);
    lemma_one_word(target);
    assert(words(rest) == seq![target]);
    assert(!is_white_space(s[0]));
    assert(words(s) =~= seq![verb] + words(rest));
    assert(words(s) =~= seq![verb, target]);
    assert(s.last() == target.last());
    assert(!is_white_space(target[target.len() - 1]));
}

/// Whatever a peer sends past the limit is ignored: what happens next does not depend on it.
pub proof fn law_excess_of_a_request_is_ignored(sent: Vec<u8>, more: Vec<u8>)
    requires
        received(sent@) == received(more@),
    ensures
        conn_after(ConnEvent::Request(Some(sent))) == conn_after(ConnEvent::Request(Some(more))),
        received(sent@).len() <= REQUEST_LIMIT,
        received(sent@).is_prefix_of(sent@),
{
}

/// What a client sends for a command is what the daemon understands: the request of every command
/// is parsed back into that command, as far as it is read whole.
pub proof fn law_payload_round_trip(cmd: CmdView)
    requires
        well_addressed(cmd),
        encode_utf8(payload_text(cmd)).len() <= REQUEST_LIMIT,
    ensures
        requested(request_words(encode_utf8(payload_text(cmd)))) == Some(cmd),
        request_words(encode_utf8(payload_text(cmd))).len() > 0,
{
    broadcast use {encode_utf8_valid_utf8, encode_utf8_decode_utf8};

    reveal_strlit("STATUS");
    reveal_strlit("LIST");
    reveal_strlit("ENABLE");
    reveal_strlit("DISABLE");
    reveal_strlit("ENABLE ");
    reveal_strlit("DISABLE ");
    assert(lossy_text(encode_utf8(payload_text(cmd))) == payload_text(cmd));
    assert(upper_text("STATUS"@) =~= "STATUS"@);
    assert(upper_text("LIST"@) =~= "LIST"@);
    assert(upper_text("ENABLE"@) =~= "ENABLE"@);
    assert(upper_text("DISABLE"@) =~= "DISABLE"@);
    match cmd {
        CmdView::Status => {
            lemma_one_word("STATUS"@);
        },
        CmdView::List => {
            lemma_one_word("LIST"@);
        },
        CmdView::Enable(target) => {
            assert("ENABLE "@ =~= "ENABLE"@ + seq![' ']);
            lemma_two_words("ENABLE"@, target);
        },
        CmdView::Disable(target) => {
            assert("DISABLE "@ =~= "DISABLE"@ + seq![' ']);
            lemma_two_words("DISABLE"@, target);
        },
    }
}

/// The alert for a peer that is not root, in the model.
pub open spec fn peer_refusal(credentials: Result<u32, Seq<char>>) -> Option<Seq<char>> {
    match credentials {
        Ok(uid) => if uid == 0 {
            None
        } else {
            Some(
                "SECURITY ALERT: Non-root process (UID: "@ + decimal(uid as nat)
                    + ") attempted IPC connection."@,
            )
        },
        Err(error) => Some(
            "SECURITY ERROR: Kernel failed to yield peer credentials: "@ + error
                + ". Dropping connection."@,
        ),
    }
}

/// The credentials of a peer, in the model.
pub open spec fn credentials_view(credentials: Result<u32, String>) -> Result<u32, Seq<char>> {
    match credentials {
        Ok(uid) => Ok(uid),
        Err(error) => Err(error@),
    }
}

/// Admits root, and nobody else; a peer whose identity is unknown is not admitted. `credentials`
/// is what the kernel says about the peer.
pub fn verify_peercred(credentials: Result<u32, String>) -> (r: Result<(), String>)
    ensures
        r is Ok <==> (credentials matches Ok(uid) && uid == 0),
        r matches Err(alert) ==> peer_refusal(credentials_view(credentials)) == Some(alert@),
{
    match credentials {
        Ok(uid) => if uid == 0 {
            Ok(())
        } else {
            let mut alert = "SECURITY ALERT: Non-root process (UID: ".to_owned();
            push_decimal(&mut alert, uid as u64);
            alert.append(") attempted IPC connection.");
            Err(alert)
        },
        Err(error) => {
            let mut alert =
                "SECURITY ERROR: Kernel failed to yield peer credentials: ".to_owned();
            alert.append(error.as_str());
            alert.append(". Dropping connection.");
            Err(alert)
        },
    }
}

/// What came of handing a command to the engine.
pub enum SendOutcome {
    /// The command waits for the engine.
    Queued,
    /// Too many commands wait already.
    Full,
    /// The engine is gone.
    Disconnected,
}

/// What came of the last action on a connection.
pub enum ConnEvent {
    /// The user that the kernel says the peer is; or the error.
    Peer(Result<u32, String>),
    /// The read timeout was set; or the error.
    ReadTimeout(Result<(), String>),
    /// The write timeout was set; or the error.
    WriteTimeout(Result<(), String>),
    /// The request, of which only the first `REQUEST_LIMIT` bytes count; none where it could not be
    /// read.
    Request(Option<Vec<u8>>),
    /// The command was handed to the engine, or not.
    Sent(SendOutcome),
    /// The reply; none where it did not come in time.
    Reply(Option<String>),
}

/// What to do next on a connection.
pub enum ConnAction {
    /// Set the read timeout to `STREAM_TIMEOUT_MS`.
    SetReadTimeout,
    /// Set the write timeout to `STREAM_TIMEOUT_MS`.
    SetWriteTimeout,
    /// Read the request.
    Receive,
    /// Hand a command to the engine.
    Dispatch(DaemonCmd),
    /// Wait for the reply.
    AwaitReply,
    /// Send this text and close the connection.
    Respond(String),
    /// Close the connection.
    Close,
}

/// The model of an action.
pub enum ConnActionView {
    /// Set the read timeout.
    SetReadTimeout,
    /// Set the write timeout.
    SetWriteTimeout,
    /// Read the request.
    Receive,
    /// Hand a command to the engine.
    Dispatch(CmdView),
    /// Wait for the reply.
    AwaitReply,
    /// Send this text and close the connection.
    Respond(Seq<char>),
    /// Close the connection.
    Close,
}

impl View for ConnAction {
    type V = ConnActionView;

    open spec fn view(&self) -> ConnActionView {
        match self {
            ConnAction::SetReadTimeout => ConnActionView::SetReadTimeout,
            ConnAction::SetWriteTimeout => ConnActionView::SetWriteTimeout,
            ConnAction::Receive => ConnActionView::Receive,
            ConnAction::Dispatch(cmd) => ConnActionView::Dispatch(cmd@),
            ConnAction::AwaitReply => ConnActionView::AwaitReply,
            ConnAction::Respond(text) => ConnActionView::Respond(text@),
            ConnAction::Close => ConnActionView::Close,
        }
    }
}

/// Whether an event says that the peer is root.
pub open spec fn from_root(event: ConnEvent) -> bool {
    event matches ConnEvent::Peer(Ok(uid)) && uid == 0
}

/// The action that follows an event, in the model.
pub open spec fn conn_after(event: ConnEvent) -> ConnActionView {
    match event {
        ConnEvent::Peer(_) => if from_root(event) {
            ConnActionView::SetReadTimeout
        } else {
            ConnActionView::Respond("ERROR: Permission denied. Root access required.\n"@)
        },
        ConnEvent::ReadTimeout(Ok(_)) => ConnActionView::SetWriteTimeout,
        ConnEvent::WriteTimeout(Ok(_)) => ConnActionView::Receive,
        ConnEvent::ReadTimeout(Err(_)) | ConnEvent::WriteTimeout(Err(_)) => ConnActionView::Close,
        ConnEvent::Request(None) => ConnActionView::Respond("ERROR: Unknown command received.\n"@),
        ConnEvent::Request(Some(buffer)) => if request_words(buffer@).len() == 0 {
            ConnActionView::Close
        } else {
            match requested(request_words(buffer@)) {
                Some(cmd) => ConnActionView::Dispatch(cmd),
                None => ConnActionView::Respond("ERROR: Unknown command received.\n"@),
            }
        },
        ConnEvent::Sent(SendOutcome::Queued) => ConnActionView::AwaitReply,
        ConnEvent::Sent(SendOutcome::Full) => ConnActionView::Respond(
            "ERROR: Daemon is busy or overwhelmed. Try again later.\n"@,
        ),
        ConnEvent::Sent(SendOutcome::Disconnected) => ConnActionView::Respond(
            "FATAL: Core engine has crashed. Channel disconnected.\n"@,
        ),
        ConnEvent::Reply(Some(text)) => ConnActionView::Respond(text@),
        ConnEvent::Reply(None) => ConnActionView::Respond(
            "ERROR: Engine operation timed out or panicked.\n"@,
        ),
    }
}

/// The line for an operator that an event calls for, in the model.
pub open spec fn conn_notice(event: ConnEvent) -> Option<Seq<char>> {
    match event {
        ConnEvent::Peer(credentials) => peer_refusal(credentials_view(credentials)),
        ConnEvent::ReadTimeout(Err(error)) => Some(
            "WARNING: Failed to apply read timeout to stream: "@ + error@,
        ),
        ConnEvent::WriteTimeout(Err(error)) => Some(
            "WARNING: Failed to apply write timeout to stream: "@ + error@,
        ),
        _ => None,
    }
}

/// One step of a connection, which starts with the credentials of the peer: takes what came of the
/// last action; gives the next action and the line for an operator.
pub fn handle_connection(event: ConnEvent) -> (r: (ConnAction, Option<String>))
    ensures
        r.0@ == conn_after(event),
        r.1 is Some <==> conn_notice(event) is Some,
        r.1 matches Some(line) ==> conn_notice(event) == Some(line@),
{
    match event {
        ConnEvent::Peer(credentials) => match verify_peercred(credentials) {
            Ok(_) => (ConnAction::SetReadTimeout, None),
            Err(alert) => (
                ConnAction::Respond(
                    "ERROR: Permission denied. Root access required.\n".to_owned(),
                ),
                Some(alert),
            ),
        },
        ConnEvent::ReadTimeout(Ok(_)) => (ConnAction::SetWriteTimeout, None),
        ConnEvent::ReadTimeout(Err(error)) => {
            let mut line = "WARNING: Failed to apply read timeout to stream: ".to_owned();
            line.append(error.as_str());
            (ConnAction::Close, Some(line))
        },
        ConnEvent::WriteTimeout(Ok(_)) => (ConnAction::Receive, None),
        ConnEvent::WriteTimeout(Err(error)) => {
            let mut line = "WARNING: Failed to apply write timeout to stream: ".to_owned();
            line.append(error.as_str());
            (ConnAction::Close, Some(line))
        },
        ConnEvent::Request(None) => (
            ConnAction::Respond("ERROR: Unknown command received.\n".to_owned()),
            None,
        ),
        ConnEvent::Request(Some(buffer)) => match parse_command(buffer.as_slice()) {
            Ok(Some(cmd)) => (ConnAction::Dispatch(cmd), None),
            Ok(None) => (ConnAction::Close, None),
            Err(_) => (
                ConnAction::Respond("ERROR: Unknown command received.\n".to_owned()),
                None,
            ),
        },
        ConnEvent::Sent(SendOutcome::Queued) => (ConnAction::AwaitReply, None),
        ConnEvent::Sent(SendOutcome::Full) => (
            ConnAction::Respond(
                "ERROR: Daemon is busy or overwhelmed. Try again later.\n".to_owned(),
            ),
            None,
        ),
        ConnEvent::Sent(SendOutcome::Disconnected) => (
            ConnAction::Respond(
                "FATAL: Core engine has crashed. Channel disconnected.\n".to_owned(),
            ),
            None,
        ),
        ConnEvent::Reply(Some(text)) => (ConnAction::Respond(text), None),
        ConnEvent::Reply(None) => (
            ConnAction::Respond("ERROR: Engine operation timed out or panicked.\n".to_owned()),
            None,
        ),
    }
}

/// Whether an event reports on an action.
pub open spec fn replies_to(event: ConnEvent, action: ConnActionView) -> bool {
    match action {
        ConnActionView::SetReadTimeout => event is ReadTimeout,
        ConnActionView::SetWriteTimeout => event is WriteTimeout,
        ConnActionView::Receive => event is Request,
        ConnActionView::Dispatch(_) => event is Sent,
        ConnActionView::AwaitReply => event is Reply,
        ConnActionView::Respond(_) | ConnActionView::Close => false,
    }
}

/// Whether `events` is the course of a connection: the credentials of the peer first, then what
/// came of each action.
pub open spec fn is_session(events: Seq<ConnEvent>) -> bool {
    &&& events.len() > 0
    &&& events[0] is Peer
    &&& forall|i: int| 0 < i < events.len() ==> replies_to(#[trigger] events[i], conn_after(events[i - 1]))
}

proof fn lemma_session_position(events: Seq<ConnEvent>)
    requires
        is_session(events),
    ensures
        events.len() <= 6,
        events.len() > 1 ==> from_root(events[0]),
        forall|i: int| 0 < i < events.len() ==> !(#[trigger] events[i] is Peer),
        forall|i: int| 0 <= i < events.len() && (#[trigger] events[i] is Request) ==> i == 3,
{
    if events.len() > 1 {
        assert(replies_to(events[1], conn_after(events[0])));
    }
    if events.len() > 2 {
        assert(replies_to(events[2], conn_after(events[1])));
    }
    if events.len() > 3 {
        assert(replies_to(events[3], conn_after(events[2])));
    }
    if events.len() > 4 {
        assert(replies_to(events[4], conn_after(events[3])));
    }
    if events.len() > 5 {
        assert(replies_to(events[5], conn_after(events[4])));
    }
    if events.len() > 6 {
        assert(replies_to(events[6], conn_after(events[5])));
    }
}

/// Only root commands the daemon: whatever happens on a connection, a command is handed to the
/// engine only when the kernel said that the peer is root, and it is the one that the peer sent.
pub proof fn law_only_root_commands(events: Seq<ConnEvent>, cmd: CmdView)
    requires
        is_session(events),
        conn_after(events.last()) == ConnActionView::Dispatch(cmd),
    ensures
        from_root(events[0]),
        events.last() matches ConnEvent::Request(Some(buffer)) && requested(
            request_words(buffer@),
        ) == Some(cmd),
{
    lemma_session_position(events);
}

/// Every connection comes to an end: no more than six things ever happen on it.
pub proof fn law_sessions_are_short(events: Seq<ConnEvent>)
    requires
        is_session(events),
    ensures
        events.len() <= 6,
{
    lemma_session_position(events);
}

/// A peer that is not root is refused and told so, and nothing else happens on its connection.
pub proof fn law_strangers_are_refused(events: Seq<ConnEvent>)
    requires
        is_session(events),
        !from_root(events[0]),
    ensures
        events.len() == 1,
        conn_after(events[0]) == ConnActionView::Respond(
            "ERROR: Permission denied. Root access required.\n"@,
        ),
        conn_notice(events[0]) is Some,
{
    lemma_session_position(events);
}

/// What the file system says about the socket after it was created.
#[derive(Clone, Copy)]
pub struct SocketMeta {
    /// The owner.
    pub uid: u32,
    /// Whether it is a symbolic link.
    pub is_symlink: bool,
}

/// Why a socket cannot be trusted.
pub const SOCKET_REFUSAL: &'static str =
    "FATAL: IPC socket ownership validation failed (Possible TOCTOU).";

/// Whether the metadata of a socket show that it was replaced, in the model.
pub open spec fn shows_replacement(meta: Option<SocketMeta>) -> bool {
    match meta {
        Some(m) => m.uid != 0 || m.is_symlink,
        None => false,
    }
}

/// Whether somebody else put their own socket in place of the one that was just created; `meta` is
/// none where the metadata could not be read.
pub fn socket_replaced(meta: Option<SocketMeta>) -> (r: bool)
    ensures
        r == shows_replacement(meta),
        r == (meta matches Some(m) && (m.uid != 0 || m.is_symlink)),
{
    match meta {
        Some(m) => m.uid != 0 || m.is_symlink,
        None => false,
    }
}

/// The bytes of a request that count are its first 1024, or all of them where there are fewer.
pub proof fn law_a_kilobyte_of_a_request_counts(sent: Seq<u8>)
    ensures
        sent.len() <= 1024 ==> received(sent) == sent,
        sent.len() > 1024 ==> received(sent) == sent.take(1024),
{
}

proof fn lemma_request_words(buffer: Vec<u8>, text: Seq<char>)
    requires
        buffer@ == encode_utf8(text),
        buffer@.len() <= 1024,
    ensures
        request_words(buffer@) == words(text),
{
    broadcast use {encode_utf8_valid_utf8, encode_utf8_decode_utf8};

    law_trim_keeps_words(text);
}

/// A verb that needs no argument is carried out whatever case it is written in, whatever blanks stand
/// before it, and whatever follows.
pub proof fn law_plain_verbs_are_understood(
    buffer: Vec<u8>,
    left: Seq<char>,
    verb: Seq<char>,
    rest: Seq<char>,
)
    requires
        blank(left),
        rest.len() > 0 ==> is_white_space(rest[0]),
        buffer@ == encode_utf8(left + verb + rest),
        buffer@.len() <= 1024,
    ensures
        spells(verb, "STATUS"@) ==> conn_after(ConnEvent::Request(Some(buffer)))
            == ConnActionView::Dispatch(CmdView::Status),
        spells(verb, "LIST"@) ==> conn_after(ConnEvent::Request(Some(buffer)))
            == ConnActionView::Dispatch(CmdView::List),
{
    reveal_strlit("STATUS");
    reveal_strlit("LIST");
    lemma_request_words(buffer, left + verb + rest);
    if spells(verb, "STATUS"@) {
        law_capitals_of_a_spelling(verb, "STATUS"@);
        law_first_word(left, verb, rest);
    }
    if spells(verb, "LIST"@) {
        law_capitals_of_a_spelling(verb, "LIST"@);
        law_first_word(left, verb, rest);
    }
}

/// A verb that names a module is carried out on the word that follows it, as that word is written,
/// whatever case the verb is in, whatever blanks stand around the two and whatever follows.
pub proof fn law_verbs_on_a_module_are_understood(
    buffer: Vec<u8>,
    left: Seq<char>,
    verb: Seq<char>,
    gap: Seq<char>,
    target: Seq<char>,
    rest: Seq<char>,
)
    requires
        blank(left),
        blank(gap),
        gap.len() > 0,
        target.len() > 0,
        solid(target),
        rest.len() > 0 ==> is_white_space(rest[0]),
        buffer@ == encode_utf8(left + verb + (gap + target + rest)),
        buffer@.len() <= 1024,
    ensures
        spells(verb, "ENABLE"@) ==> conn_after(ConnEvent::Request(Some(buffer)))
            == ConnActionView::Dispatch(CmdView::Enable(target)),
        spells(verb, "DISABLE"@) ==> conn_after(ConnEvent::Request(Some(buffer)))
            == ConnActionView::Dispatch(CmdView::Disable(target)),
{
    reveal_strlit("STATUS");
    reveal_strlit("LIST");
    reveal_strlit("ENABLE");
    reveal_strlit("DISABLE");
    let tail = gap + target + rest;
    assert(is_white_space(gap[0]));
    assert(tail[0] == gap[0]);
    lemma_request_words(buffer, left + verb + tail);
    law_first_word(gap, target, rest);
    assert("ENABLE"@[0] == 'E' && "DISABLE"@[0] == 'D' && "STATUS"@[0] == 'S');
    if spells(verb, "ENABLE"@) {
        law_capitals_of_a_spelling(verb, "ENABLE"@);
        law_first_word(left, verb, tail);
        assert(words(left + verb + tail)[1] == target);
    }
    if spells(verb, "DISABLE"@) {
        law_capitals_of_a_spelling(verb, "DISABLE"@);
        law_first_word(left, verb, tail);
        assert(words(left + verb + tail)[1] == target);
    }
}

/// A verb that needs a module and comes without one, and any other verb, is answered with an error
/// and reaches nobody.
pub proof fn law_other_requests_are_unknown(
    buffer: Vec<u8>,
    left: Seq<char>,
    verb: Seq<char>,
    rest: Seq<char>,
)
    requires
        blank(left),
        verb.len() > 0,
        solid(verb),
        rest.len() > 0 ==> is_white_space(rest[0]),
        buffer@ == encode_utf8(left + verb + rest),
        buffer@.len() <= 1024,
        upper_text(verb) != "STATUS"@,
        upper_text(verb) != "LIST"@,
        blank(rest) || (upper_text(verb) != "ENABLE"@ && upper_text(verb) != "DISABLE"@),
    ensures
        conn_after(ConnEvent::Request(Some(buffer))) == ConnActionView::Respond(
            "ERROR: Unknown command received.\n"@,
        ),
{
    lemma_request_words(buffer, left + verb + rest);
    law_first_word(left, verb, rest);
    if blank(rest) {
        law_blank_text_has_no_word(rest);
    }
}

/// A request of blanks alone is no command: the connection is closed without a reply.
pub proof fn law_blank_requests_are_closed(buffer: Vec<u8>, text: Seq<char>)
    requires
        blank(text),
        buffer@ == encode_utf8(text),
        buffer@.len() <= 1024,
    ensures
        conn_after(ConnEvent::Request(Some(buffer))) == ConnActionView::Close,
{
    lemma_request_words(buffer, text);
    law_blank_text_has_no_word(text);
}

/// Only the user zero is let in, by what the kernel says of the peer: everybody else, and a peer of
/// whom the kernel cannot tell, is refused, and an operator learns the user or the error.
pub proof fn law_peer_is_judged_by_the_kernel(credentials: Result<u32, String>)
    ensures
        conn_after(ConnEvent::Peer(credentials)) is SetReadTimeout <==> credentials == Ok::<
            u32,
            String,
        >(0),
        conn_after(ConnEvent::Peer(credentials)) is Respond <==> credentials != Ok::<u32, String>(0),
        conn_notice(ConnEvent::Peer(credentials)) is None <==> credentials == Ok::<u32, String>(0),
        credentials matches Ok(uid) ==> (uid != 0 ==> contains(
            conn_notice(ConnEvent::Peer(credentials))->0,
            decimal(uid as nat),
        )),
        credentials matches Err(e) ==> contains(
            conn_notice(ConnEvent::Peer(credentials))->0,
            e@,
        ),
{
    match credentials {
        Ok(uid) => {
            if uid != 0 {
                law_contains_means_a_part(
                    "SECURITY ALERT: Non-root process (UID: "@ + decimal(uid as nat)
                        + ") attempted IPC connection."@,
                    decimal(uid as nat),
                );
            }
        },
        Err(e) => {
            law_contains_means_a_part(
                "SECURITY ERROR: Kernel failed to yield peer credentials: "@ + e@
                    + ". Dropping connection."@,
                e@,
            );
        },
    }
}

/// A command of root runs its course: both timeouts are set before anything is read, the command is
/// handed to the engine, and the reply of the engine is what the peer gets, word for word.
pub proof fn law_reply_of_the_engine_reaches_root(buffer: Vec<u8>, cmd: CmdView, reply: String)
    requires
        conn_after(ConnEvent::Request(Some(buffer))) == ConnActionView::Dispatch(cmd),
    ensures
        is_session(
            seq![
                ConnEvent::Peer(Ok(0)),
                ConnEvent::ReadTimeout(Ok(())),
                ConnEvent::WriteTimeout(Ok(())),
                ConnEvent::Request(Some(buffer)),
                ConnEvent::Sent(SendOutcome::Queued),
                ConnEvent::Reply(Some(reply)),
            ],
        ),
        conn_after(ConnEvent::Reply(Some(reply))) == ConnActionView::Respond(reply@),
{
}

/// A connection on which a step fails ends: silently where a timeout cannot be set, of which an
/// operator is told, and with a reply where the engine cannot take the command or does not answer.
pub proof fn law_failed_steps_end_a_connection(event: ConnEvent)
    ensures
        event matches ConnEvent::ReadTimeout(Err(e)) ==> conn_after(event) is Close && contains(
            conn_notice(event)->0,
            e@,
        ) && conn_notice(event) is Some,
        event matches ConnEvent::WriteTimeout(Err(e)) ==> conn_after(event) is Close && contains(
            conn_notice(event)->0,
            e@,
        ) && conn_notice(event) is Some,
        event matches ConnEvent::Request(None) ==> conn_after(event) == ConnActionView::Respond(
            "ERROR: Unknown command received.\n"@,
        ),
        event matches ConnEvent::Sent(SendOutcome::Full) ==> conn_after(event)
            == ConnActionView::Respond("ERROR: Daemon is busy or overwhelmed. Try again later.\n"@),
        event matches ConnEvent::Sent(SendOutcome::Disconnected) ==> conn_after(event)
            == ConnActionView::Respond("FATAL: Core engine has crashed. Channel disconnected.\n"@),
        event matches ConnEvent::Reply(None) ==> conn_after(event) == ConnActionView::Respond(
            "ERROR: Engine operation timed out or panicked.\n"@,
        ),
        conn_notice(event) is Some ==> event is Peer || (event matches ConnEvent::ReadTimeout(set)
            && set is Err) || (event matches ConnEvent::WriteTimeout(set) && set is Err),
{
    match event {
        ConnEvent::ReadTimeout(Err(e)) => {
            let head = "WARNING: Failed to apply read timeout to stream: "@;
            law_contains_means_a_part(head + e@, e@);
            assert(head + e@ =~= head + e@ + Seq::<char>::empty());
        },
        ConnEvent::WriteTimeout(Err(e)) => {
            let head = "WARNING: Failed to apply write timeout to stream: "@;
            law_contains_means_a_part(head + e@, e@);
            assert(head + e@ =~= head + e@ + Seq::<char>::empty());
        },
        _ => {},
    }
}

/// A client shows a reply without the blanks at its end and without any other change.
pub proof fn law_replies_are_shown_without_trailing_blanks(reply: Seq<char>, right: Seq<char>)
    requires
        blank(right),
        reply.len() > 0 ==> !is_white_space(reply.last()),
    ensures
        trim_end(reply + right) == reply,
    decreases right.len(),
{
    if right.len() > 0 {
        assert(is_white_space(right.last()));
        assert((reply + right).drop_last() =~= reply + right.drop_last());
        law_replies_are_shown_without_trailing_blanks(reply, right.drop_last());
    } else {
        assert(reply + right =~= reply);
    }
}

/// What the control plane is limited to: the socket is root's alone, a peer has a second, the engine
/// five, and no more than 128 commands wait.
pub proof fn law_limits_of_the_control_plane()
    ensures
        SOCKET_UMASK == 0o177,
        STREAM_TIMEOUT_MS == 1_000,
        REPLY_TIMEOUT_SECS == 5,
        QUEUE_DEPTH == 128,
{
}

/// A socket is kept exactly if nothing is known against it: it is not known to be owned by anybody but
/// root, nor to be a link.
pub proof fn law_only_a_socket_of_root_is_kept(uid: u32, is_symlink: bool)
    ensures
        shows_replacement(Some(SocketMeta { uid, is_symlink })) <==> !(uid == 0 && !is_symlink),
        !shows_replacement(None),
{
}

} // verus!
