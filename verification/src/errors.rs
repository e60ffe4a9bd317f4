//! Errors and the kinds under which they are reported.

use vstd::prelude::*;

use crate::text;

verus! {

/// `anyhow::Error`: an error with the chain of its causes.
#[verifier::external_type_specification]
#[verifier::external_body]
pub struct ExAnyhowError(anyhow::Error);

/// What an error holds: its text and those of its causes, the outermost first. The text of an error
/// and those of its causes are taken not to change while the error lives.
pub uninterp spec fn error_chain(error: anyhow::Error) -> Seq<Seq<char>>;

/// `anyhow::Error::msg` makes an error of a text, without a cause.
#[verifier::external_body]
pub(crate) fn error_from_text(message: String) -> (error: anyhow::Error)
    ensures
        error_chain(error) == seq![message@],
{
    anyhow::Error::msg(message)
}

/// `anyhow::Error::context` puts a text in front of an error, which becomes its cause.
#[verifier::external_body]
pub(crate) fn error_in_context(error: anyhow::Error, context: String) -> (wrapped: anyhow::Error)
    ensures
        error_chain(wrapped) == seq![context@] + error_chain(error),
{
    error.context(context)
}

/// The texts one after the other, with a colon and a blank between them.
pub open spec fn joined(chain: Seq<Seq<char>>) -> Seq<char>
    decreases chain.len(),
{
    if chain.len() == 0 {
        Seq::empty()
    } else if chain.len() == 1 {
        chain[0]
    } else {
        chain[0] + ": "@ + joined(chain.skip(1))
    }
}

/// The alternate `Display` form of `anyhow::Error` writes the error and all its causes, each
/// after a colon and a blank.
#[verifier::external_body]
pub(crate) fn error_text(error: &anyhow::Error) -> (message: String)
    ensures
        message@ == joined(error_chain(*error)),
{
    format!("{error:#}")
}

/// The kind under which an error is reported.
#[derive(Debug, Clone, Copy, PartialEq, Eq, Structural)]
pub enum RustErrorType {
    TokenError,
    Disconnect,
    AddressExhausted,
    IpAlreadyExists,
    InvalidIp,
    LocalIpExists,
    FailedToCreateDevice,
    NetworkError,
    Unknown,
    PasswordError,
}

/// An error as it is reported: its kind, the code that the server gave, the text.
#[derive(Debug)]
pub struct RustErrorInfo {
    pub code: RustErrorType,
    pub server_code: Option<u32>,
    pub msg: Option<String>,
}

/// The value of a [`RustErrorInfo`].
pub struct ErrorInfo {
    pub code: RustErrorType,
    pub server_code: Option<u32>,
    pub msg: Option<Seq<char>>,
}

impl View for RustErrorInfo {
    type V = ErrorInfo;

    open spec fn view(&self) -> ErrorInfo {
        ErrorInfo {
            code: self.code,
            server_code: self.server_code,
            msg: match self.msg {
                Some(message) => Some(message@),
                None => None,
            },
        }
    }
}

/// The code in a message: what stands between the first `(code=` and the next `)`, if that is a
/// number.
pub open spec fn server_code(message: Seq<char>) -> Option<u32> {
    match text::first_position(message, "(code="@) {
        None => None,
        Some(i) => {
            let rest = message.skip(i + "(code="@.len());
            match text::first_position(rest, ")"@) {
                None => None,
                Some(j) => text::number_u32(rest.take(j)),
            }
        },
    }
}

/// The kind that belongs to a code of the server.
pub open spec fn server_code_type(code: u32) -> Option<RustErrorType> {
    if code == 1 {
        Some(RustErrorType::TokenError)
    } else if code == 2 {
        Some(RustErrorType::AddressExhausted)
    } else if code == 3 {
        Some(RustErrorType::IpAlreadyExists)
    } else if code == 4 {
        Some(RustErrorType::InvalidIp)
    } else if code == 5 {
        Some(RustErrorType::LocalIpExists)
    } else {
        None
    }
}

/// The words of a message in lower case that tell its kind, one row for each kind: the first row
/// with a word in the message decides.
pub open spec fn message_type(lowered: Seq<char>) -> RustErrorType {
    if {
        ||| text::holds(lowered, "password"@)
        ||| text::holds(lowered, "key_sign"@)
        ||| text::holds(lowered, "key sign"@)
        ||| text::holds(lowered, "密钥"@)
        ||| text::holds(lowered, "密码"@)
    } {
        RustErrorType::PasswordError
    } else if text::holds(lowered, "network_code"@) || text::holds(lowered, "token"@) {
        RustErrorType::TokenError
    } else if text::holds(lowered, "address exhausted"@) || text::holds(lowered, "地址已耗尽"@) {
        RustErrorType::AddressExhausted
    } else if text::holds(lowered, "ip already exists"@) || text::holds(lowered, "ip 已存在"@) {
        RustErrorType::IpAlreadyExists
    } else if text::holds(lowered, "invalid ip"@) || text::holds(lowered, "无效 ip"@) {
        RustErrorType::InvalidIp
    } else if text::holds(lowered, "local ip exists"@) || text::holds(lowered, "本机 ip"@) {
        RustErrorType::LocalIpExists
    } else if text::holds(lowered, "failed to create device"@) || text::holds(lowered, "启动虚拟网卡失败"@) {
        RustErrorType::FailedToCreateDevice
    } else if {
        ||| text::holds(lowered, "failed to create quic endpoint"@)
        ||| text::holds(lowered, "failed to create endpoint"@)
        ||| text::holds(lowered, "quic endpoint"@)
        ||| text::holds(lowered, "getsockopt"@)
        ||| text::holds(lowered, "setsockopt"@)
    } {
        RustErrorType::NetworkError
    } else if text::holds(lowered, "disconnect"@) || text::holds(lowered, "disconnected"@) {
        RustErrorType::Disconnect
    } else {
        RustErrorType::Unknown
    }
}

/// The report on an error with the given text, of which `lowered` is the lower case: the code of
/// the server decides its kind if it is a known one, else the words of the text do.
pub open spec fn error_info(message: Seq<char>, lowered: Seq<char>) -> ErrorInfo {
    ErrorInfo {
        code: match server_code(message) {
            Some(code) if server_code_type(code) is Some => server_code_type(code)->0,
            _ => message_type(lowered),
        },
        server_code: server_code(message),
        msg: Some(message),
    }
}

/// The report on an error, whose text is that of the whole chain of causes. Of a text of ASCII
/// characters and ideographs the lower case is known.
pub fn error_info_from_error(error: &anyhow::Error) -> (info: RustErrorInfo)
    ensures
        info@ == ({
            let message = joined(error_chain(*error));
            error_info(message, text::lowercase(message))
        }),
        ({
            let message = joined(error_chain(*error));
            text::is_plain(message) ==> info@ == error_info(message, text::ascii_lowered(message))
        }),
{
    let message = error_text(error);
    let lowered = message.as_str().to_lowercase();
    error_info_from_text(message, lowered.as_str())
}

/// The report on an error with the given text, of which `lowered` is the lower case.
pub fn error_info_from_text(message: String, lowered: &str) -> (info: RustErrorInfo)
    ensures
        info@ == error_info(message@, lowered@),
{
    let server_code = extract_server_error_code(message.as_str());
    let known = match server_code {
        Some(code) => error_type_from_server_code(code),
        None => None,
    };
    let code = match known {
        Some(kind) => kind,
        None => error_type_from_message(lowered),
    };
    RustErrorInfo { code, server_code, msg: Some(message) }
}

/// The code that the server gave, as the message holds it.
pub fn extract_server_error_code(message: &str) -> (r: Option<u32>)
    ensures
        r == server_code(message@),
{
    proof {
        reveal_strlit("(code=");
    }
    let chars = text::chars_of(message);
    let start: usize = match text::find(&chars, "(code=") {
        Some(i) => {
            assert(i + 6 <= chars.len());
            i + 6
        },
        None => return None,
    };
    let mut rest: Vec<char> = Vec::new();
    let mut i: usize = start;
    while i < chars.len()
        invariant
            start <= i <= chars.len(),
            rest@ == chars@.subrange(start as int, i as int),
        decreases chars.len() - i,
    {
        rest.push(chars[i]);
        i += 1;
    }
    assert(rest@ == message@.skip(start as int));
    match text::find(&rest, ")") {
        Some(end) => {
            assert(rest@.subrange(0, end as int) == rest@.take(end as int));
            text::parse_u32(&rest, 0, end)
        },
        None => None,
    }
}

/// The kind that belongs to a code of the server.
pub fn error_type_from_server_code(code: u32) -> (r: Option<RustErrorType>)
    ensures
        r == server_code_type(code),
{
    match code {
        1 => Some(RustErrorType::TokenError),
        2 => Some(RustErrorType::AddressExhausted),
        3 => Some(RustErrorType::IpAlreadyExists),
        4 => Some(RustErrorType::InvalidIp),
        5 => Some(RustErrorType::LocalIpExists),
        _ => None,
    }
}

/// The kind that the words of a message in lower case tell.
pub fn error_type_from_message(lowered: &str) -> (r: RustErrorType)
    ensures
        r == message_type(lowered@),
{
    let words = text::chars_of(lowered);
    if text::contains(&words, "password") || text::contains(&words, "key_sign") || text::contains(&words, "key sign")
        || text::contains(&words, "密钥") || text::contains(&words, "密码") {
        RustErrorType::PasswordError
    } else if text::contains(&words, "network_code") || text::contains(&words, "token") {
        RustErrorType::TokenError
    } else if text::contains(&words, "address exhausted") || text::contains(&words, "地址已耗尽") {
        RustErrorType::AddressExhausted
    } else if text::contains(&words, "ip already exists") || text::contains(&words, "ip 已存在") {
        RustErrorType::IpAlreadyExists
    } else if text::contains(&words, "invalid ip") || text::contains(&words, "无效 ip") {
        RustErrorType::InvalidIp
    } else if text::contains(&words, "local ip exists") || text::contains(&words, "本机 ip") {
        RustErrorType::LocalIpExists
    } else if text::contains(&words, "failed to create device") || text::contains(&words, "启动虚拟网卡失败") {
        RustErrorType::FailedToCreateDevice
    } else if text::contains(&words, "failed to create quic endpoint") || text::contains(
        &words,
        "failed to create endpoint",
    ) || text::contains(&words, "quic endpoint") || text::contains(&words, "getsockopt") || text::contains(
        &words,
        "setsockopt",
    ) {
        RustErrorType::NetworkError
    } else if text::contains(&words, "disconnect") || text::contains(&words, "disconnected") {
        RustErrorType::Disconnect
    } else {
        RustErrorType::Unknown
    }
}

/// The text of the error on a registration that the server refused.
pub open spec fn refusal_text(code: u32, message: Seq<char>) -> Seq<char> {
    "注册到 VNTS 2.0 服务端失败(code="@ + text::decimal(code as nat) + "): "@ + message
}

/// The error on a registration that the server refused.
pub fn refusal_error(code: u32, message: &str) -> (error: anyhow::Error)
    ensures
        error_chain(error) == seq![refusal_text(code, message@)],
{
    let mut text = "注册到 VNTS 2.0 服务端失败(code=".to_string();
    text.append(text::decimal_text(code as u64).as_str());
    text.append("): ");
    text.append(message);
    error_from_text(text)
}

/// Behind any text without a mark, what stands between the mark and the next bracket is read as the
/// code, whatever follows.
pub proof fn law_code_is_in_mark(prefix: Seq<char>, body: Seq<char>, suffix: Seq<char>)
    requires
        !text::holds(prefix, "(code="@),
        !body.contains(')'),
    ensures
        server_code(prefix + "(code="@ + body + ")"@ + suffix) == text::number_u32(body),
{
    let mark = "(code="@;
    let whole = prefix + mark + body + ")"@ + suffix;
    let n = prefix.len() as int;
    lemma_mark_position(prefix, body + ")"@ + suffix);
    assert(whole == prefix + mark + (body + ")"@ + suffix));
    reveal_strlit("(code=");
    reveal_strlit(")");
    let rest = whole.skip(n + 6);
    let end = body.len() as int;
    assert(rest == body + ")"@ + suffix);
    assert(rest.subrange(end, end + 1) == ")"@);
    assert forall|j: int| 0 <= j < end implies !text::occurs_at(rest, ")"@, j) by {
        assert(rest[j] == body[j]);
        if text::occurs_at(rest, ")"@, j) {
            assert(rest.subrange(j, j + 1)[0] == rest[j]);
        }
    }
    text::lemma_first_position(rest, ")"@, end);
    assert(rest.take(end) == body);
}

/// The first mark of a text is the one behind a text without any.
proof fn lemma_mark_position(prefix: Seq<char>, rest: Seq<char>)
    requires
        !text::holds(prefix, "(code="@),
    ensures
        text::first_position(prefix + "(code="@ + rest, "(code="@) == Some(prefix.len() as int),
{
    let mark = "(code="@;
    let whole = prefix + mark + rest;
    let n = prefix.len() as int;
    reveal_strlit("(code=");
    assert(whole.subrange(n, n + 6) == mark);
    assert forall|j: int| 0 <= j < n implies !text::occurs_at(whole, mark, j) by {
        if text::occurs_at(whole, mark, j) {
            let found = whole.subrange(j, j + 6);
            if j + 6 <= n {
                assert(prefix.subrange(j, j + 6) == found);
                assert(text::occurs_at(prefix, mark, j));
            } else {
                // The mark behind the prefix starts within the one found, which has but one bracket.
                assert(found[n - j] == whole[n]);
                assert(whole[n] == mark[0]);
            }
        }
    }
    text::lemma_first_position(whole, mark, n);
}

/// A text without a mark has no code, and neither has one whose mark is not closed.
pub proof fn law_no_code_without_mark(prefix: Seq<char>, rest: Seq<char>)
    requires
        !text::holds(prefix, "(code="@),
        !rest.contains(')'),
    ensures
        server_code(prefix) is None,
        server_code(prefix + "(code="@ + rest) is None,
{
    let whole = prefix + "(code="@ + rest;
    text::law_first_position(prefix, "(code="@);
    lemma_mark_position(prefix, rest);
    reveal_strlit("(code=");
    reveal_strlit(")");
    assert(whole.skip((prefix.len() + 6) as int) == rest);
    assert forall|j: int| !text::occurs_at(rest, ")"@, j) by {
        if text::occurs_at(rest, ")"@, j) {
            assert(rest.subrange(j, j + 1)[0] == rest[j]);
        }
    }
}

/// A code in its mark is read back, whatever follows it, behind any text without such a mark.
pub proof fn law_code_is_read_back(prefix: Seq<char>, code: u32, suffix: Seq<char>)
    requires
        !text::holds(prefix, "(code="@),
    ensures
        server_code(prefix + "(code="@ + text::decimal(code as nat) + ")"@ + suffix) == Some(code),
{
    let digits = text::decimal(code as nat);
    text::lemma_decimal(code as nat);
    assert(!digits.contains(')')) by {
        if digits.contains(')') {
            let i = choose|i: int| 0 <= i < digits.len() && digits[i] == ')';
            assert(text::is_digit(digits[i]));
        }
    }
    law_code_is_in_mark(prefix, digits, suffix);
    text::law_number_is_read_back(code, 0);
    assert(Seq::new(0, |i: int| '0') + digits == digits);
}

/// A refusal is reported with the code that the server gave, whatever its message says.
pub proof fn law_refusal_keeps_code(code: u32, message: Seq<char>)
    ensures
        server_code(refusal_text(code, message)) == Some(code),
{
    reveal_strlit("注册到 VNTS 2.0 服务端失败(code=");
    reveal_strlit("(code=");
    reveal_strlit("): ");
    reveal_strlit(")");
    let head = "注册到 VNTS 2.0 服务端失败(code="@;
    let prefix = head.take(head.len() - 6);
    let suffix = seq![':', ' '] + message;
    assert forall|j: int| !text::occurs_at(prefix, "(code="@, j) by {
        if text::occurs_at(prefix, "(code="@, j) {
            assert(prefix.subrange(j, j + 6)[0] == prefix[j]);
            assert(prefix[j] == head[j]);
            assert(head[j] != '(');
        }
    }
    law_code_is_read_back(prefix, code, suffix);
    assert(refusal_text(code, message) == prefix + "(code="@ + text::decimal(code as nat) + ")"@
        + suffix);
}

/// A refusal is reported under the kind that belongs to its code, if it is a known one, and with
/// the whole text.
pub proof fn law_refusal_is_reported(code: u32, message: Seq<char>, lowered: Seq<char>)
    ensures
        ({
            let info = error_info(refusal_text(code, message), lowered);
            &&& info.server_code == Some(code)
            &&& info.msg == Some(refusal_text(code, message))
            &&& server_code_type(code) matches Some(kind) ==> info.code == kind
            &&& server_code_type(code) is None ==> info.code == message_type(lowered)
        }),
{
    law_refusal_keeps_code(code, message);
}

/// In which place a kind is looked for in the words of a message.
pub open spec fn rank(kind: RustErrorType) -> nat {
    match kind {
        RustErrorType::PasswordError => 0,
        RustErrorType::TokenError => 1,
        RustErrorType::AddressExhausted => 2,
        RustErrorType::IpAlreadyExists => 3,
        RustErrorType::InvalidIp => 4,
        RustErrorType::LocalIpExists => 5,
        RustErrorType::FailedToCreateDevice => 6,
        RustErrorType::NetworkError => 7,
        RustErrorType::Disconnect => 8,
        RustErrorType::Unknown => 9,
    }
}

/// Text round a message leaves its kind as it is, or turns it into one that is looked for earlier.
pub proof fn law_surrounding_text_keeps_rank(before: Seq<char>, message: Seq<char>, after: Seq<char>)
    ensures
        rank(message_type(before + message + after)) <= rank(message_type(message)),
{
    let whole = before + message + after;
    assert forall|word: Seq<char>| #[trigger] text::holds(message, word) implies text::holds(
        whole,
        word,
    ) by {
        let i = choose|i: int| text::occurs_at(message, word, i);
        let j = before.len() + i;
        assert(whole.subrange(j, j + word.len()) == message.subrange(i, i + word.len()));
        assert(text::occurs_at(whole, word, j));
    }
}

/// The text of an error is that of its outermost cause, with the texts of the others behind it, a
/// colon and a blank before each.
pub proof fn law_joined(first: Seq<char>, others: Seq<Seq<char>>)
    ensures
        joined(seq![first]) == first,
        others.len() > 0 ==> joined(seq![first] + others) == first + seq![':', ' '] + joined(others),
{
    reveal_strlit(": ");
    assert((seq![first] + others).skip(1) == others);
    assert(": "@ == seq![':', ' ']);
}

/// The server has a code for each of five kinds, and no others.
pub proof fn law_server_codes(code: u32)
    ensures
        server_code_type(code) == Some(RustErrorType::TokenError) <==> code == 1,
        server_code_type(code) == Some(RustErrorType::AddressExhausted) <==> code == 2,
        server_code_type(code) == Some(RustErrorType::IpAlreadyExists) <==> code == 3,
        server_code_type(code) == Some(RustErrorType::InvalidIp) <==> code == 4,
        server_code_type(code) == Some(RustErrorType::LocalIpExists) <==> code == 5,
        server_code_type(code) is None <==> code == 0 || 6 <= code,
{
}

/// A message is of a kind exactly if one of the words of that kind stands in it, and none of a kind
/// that is looked for earlier. Without any of the words it is of no known kind.
pub proof fn law_words_tell_kind(m: Seq<char>)
    ensures
        ({
            let password = text::holds(m, "password"@) || text::holds(m, "key_sign"@) || text::holds(
                m,
                "key sign"@,
            ) || text::holds(m, "密钥"@) || text::holds(m, "密码"@);
            let token = text::holds(m, "network_code"@) || text::holds(m, "token"@);
            let exhausted = text::holds(m, "address exhausted"@) || text::holds(m, "地址已耗尽"@);
            let taken = text::holds(m, "ip already exists"@) || text::holds(m, "ip 已存在"@);
            let invalid = text::holds(m, "invalid ip"@) || text::holds(m, "无效 ip"@);
            let local = text::holds(m, "local ip exists"@) || text::holds(m, "本机 ip"@);
            let device = text::holds(m, "failed to create device"@) || text::holds(m, "启动虚拟网卡失败"@);
            let network = text::holds(m, "failed to create endpoint"@) || text::holds(
                m,
                "quic endpoint"@,
            ) || text::holds(m, "getsockopt"@) || text::holds(m, "setsockopt"@);
            let disconnect = text::holds(m, "disconnect"@);
            let kind = message_type(m);
            &&& kind == RustErrorType::PasswordError <==> password
            &&& kind == RustErrorType::TokenError <==> token && !password
            &&& kind == RustErrorType::AddressExhausted <==> exhausted && !token && !password
            &&& kind == RustErrorType::IpAlreadyExists <==> taken && !exhausted && !token && !password
            &&& kind == RustErrorType::InvalidIp <==> invalid && !taken && !exhausted && !token && !password
            &&& kind == RustErrorType::LocalIpExists <==> local && !invalid && !taken && !exhausted && !token
                && !password
            &&& kind == RustErrorType::FailedToCreateDevice <==> device && !local && !invalid && !taken
                && !exhausted && !token && !password
            &&& kind == RustErrorType::NetworkError <==> network && !device && !local && !invalid && !taken
                && !exhausted && !token && !password
            &&& kind == RustErrorType::Disconnect <==> disconnect && !network && !device && !local && !invalid
                && !taken && !exhausted && !token && !password
            &&& kind == RustErrorType::Unknown <==> !disconnect && !network && !device && !local && !invalid
                && !taken && !exhausted && !token && !password
        }),
{
    // The longer of these words hold the shorter ones.
    reveal_strlit("failed to create quic endpoint");
    reveal_strlit("quic endpoint");
    reveal_strlit("disconnected");
    reveal_strlit("disconnect");
    let none = Seq::<char>::empty();
    assert("failed to create quic endpoint"@ == "failed to create quic endpoint"@.take(17) + "quic endpoint"@
        + none);
    lemma_holds_part(
        m,
        "failed to create quic endpoint"@,
        "failed to create quic endpoint"@.take(17),
        "quic endpoint"@,
        none,
    );
    assert("disconnected"@ == none + "disconnect"@ + seq!['e', 'd']);
    lemma_holds_part(m, "disconnected"@, none, "disconnect"@, seq!['e', 'd']);
}

/// What holds a word holds each part of the word.
proof fn lemma_holds_part(
    m: Seq<char>,
    word: Seq<char>,
    before: Seq<char>,
    part: Seq<char>,
    after: Seq<char>,
)
    requires
        word == before + part + after,
    ensures
        text::holds(m, word) ==> text::holds(m, part),
{
    if text::holds(m, word) {
        let i = choose|i: int| text::occurs_at(m, word, i);
        let j = i + before.len();
        assert(m.subrange(i, i + word.len()).subrange(
            before.len() as int,
            (before.len() + part.len()) as int,
        ) == part);
        assert(m.subrange(j, j + part.len()) == part);
        assert(text::occurs_at(m, part, j));
    }
}

/// A report holds the whole text and the code in it. A code that the server has a kind for decides
/// the kind; where there is none, the words of the text in lower case do.
pub proof fn law_error_is_reported(message: Seq<char>, lowered: Seq<char>)
    ensures
        error_info(message, lowered).msg == Some(message),
        error_info(message, lowered).server_code == server_code(message),
        server_code(message) matches Some(code) && 1 <= code <= 5 ==> Some(
            error_info(message, lowered).code,
        ) == server_code_type(server_code(message)->0),
        !(server_code(message) matches Some(code) && 1 <= code <= 5) ==> error_info(
            message,
            lowered,
        ).code == message_type(lowered),
{
}

/// The text of a refusal: that the registration failed, the code in its mark, and the message of the
/// server at the end.
pub proof fn law_refusal_text(code: u32, message: Seq<char>)
    ensures
        refusal_text(code, message) == "注册到 VNTS 2.0 服务端失败"@ + "(code="@ + text::decimal(code as nat)
            + ")"@ + seq![':', ' '] + message,
{
    reveal_strlit("注册到 VNTS 2.0 服务端失败(code=");
    reveal_strlit("注册到 VNTS 2.0 服务端失败");
    reveal_strlit("(code=");
    reveal_strlit("): ");
    reveal_strlit(")");
    assert(refusal_text(code, message) == "注册到 VNTS 2.0 服务端失败"@ + "(code="@ + text::decimal(
        code as nat,
    ) + ")"@ + seq![':', ' '] + message);
}

/// The value of a report tells all of its parts.
pub proof fn law_error_info_view(info: RustErrorInfo)
    ensures
        info@.code == info.code,
        info@.server_code == info.server_code,
        info@.msg is Some <==> info.msg is Some,
        info.msg matches Some(message) ==> info@.msg == Some(message@),
{
}

/// A message that says that the network device could not be started is of that kind, or of one that
/// is looked for earlier.
pub(crate) proof fn lemma_device_rank(lowered: Seq<char>)
    requires
        text::holds(lowered, "启动虚拟网卡失败"@),
    ensures
        rank(message_type(lowered)) <= rank(RustErrorType::FailedToCreateDevice),
{
}

/// The kind of a report is looked for no later than that of the words, or than the last kind that the
/// server has a code for.
pub(crate) proof fn lemma_rank_of_report(message: Seq<char>, lowered: Seq<char>)
    ensures
        rank(error_info(message, lowered).code) <= rank(message_type(lowered)) || rank(
            error_info(message, lowered).code,
        ) <= rank(RustErrorType::LocalIpExists),
{
}

} // verus!
