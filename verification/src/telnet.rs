use vstd::prelude::*;
use vstd::utf8::{decode_utf8, valid_utf8};
use crate::terminal::TerminalSize;

verus! {

/// "Interpret as command": the byte that introduces every telnet command.
pub const IAC: u8 = 255;

/// The SEND request code of a terminal-type subnegotiation.
pub const SEND: u8 = 1;

pub const ECHO: u8 = 1;
pub const SGA: u8 = 3;
pub const TTYPE: u8 = 24;
pub const NAWS: u8 = 31;
pub const LINEMODE: u8 = 34;
pub const NEW_ENVIRON: u8 = 39;

/// A telnet command byte, as the negotiation cares about it.
#[derive(Clone, Copy, Debug, PartialEq, Eq, Structural)]
pub enum TelnetCommand {
    Se,
    Nop,
    Sb,
    Will,
    Wont,
    Do,
    Dont,
    Iac,
    Unknown(u8),
}

/// The command a byte following IAC names.
pub open spec fn command_of_byte(byte: u8) -> TelnetCommand {
    if byte == 240 {
        TelnetCommand::Se
    } else if byte == 241 {
        TelnetCommand::Nop
    } else if byte == 250 {
        TelnetCommand::Sb
    } else if byte == 251 {
        TelnetCommand::Will
    } else if byte == 252 {
        TelnetCommand::Wont
    } else if byte == 253 {
        TelnetCommand::Do
    } else if byte == 254 {
        TelnetCommand::Dont
    } else if byte == 255 {
        TelnetCommand::Iac
    } else {
        TelnetCommand::Unknown(byte)
    }
}

/// The byte a command is sent as.
pub open spec fn command_byte(command: TelnetCommand) -> u8 {
    match command {
        TelnetCommand::Se => 240,
        TelnetCommand::Nop => 241,
        TelnetCommand::Sb => 250,
        TelnetCommand::Will => 251,
        TelnetCommand::Wont => 252,
        TelnetCommand::Do => 253,
        TelnetCommand::Dont => 254,
        TelnetCommand::Iac => 255,
        TelnetCommand::Unknown(byte) => byte,
    }
}

impl TelnetCommand {
    pub fn from_byte(byte: u8) -> (r: Self)
        ensures
            r == command_of_byte(byte),
    {
        match byte {
            240 => TelnetCommand::Se,
            241 => TelnetCommand::Nop,
            250 => TelnetCommand::Sb,
            251 => TelnetCommand::Will,
            252 => TelnetCommand::Wont,
            253 => TelnetCommand::Do,
            254 => TelnetCommand::Dont,
            255 => TelnetCommand::Iac,
            byte => TelnetCommand::Unknown(byte),
        }
    }

    pub fn raw(self) -> (r: u8)
        ensures
            r == command_byte(self),
    {
        match self {
            TelnetCommand::Se => 240,
            TelnetCommand::Nop => 241,
            TelnetCommand::Sb => 250,
            TelnetCommand::Will => 251,
            TelnetCommand::Wont => 252,
            TelnetCommand::Do => 253,
            TelnetCommand::Dont => 254,
            TelnetCommand::Iac => 255,
            TelnetCommand::Unknown(byte) => byte,
        }
    }
}

/// Reading a command byte and sending the command back gives the same byte.
pub proof fn lemma_command_byte_round_trip(byte: u8)
    ensures
        command_byte(command_of_byte(byte)) == byte,
{
}

/// A telnet option code; options the server does not know pass through as
/// their raw code.
#[derive(Clone, Copy, Debug, PartialEq, Eq, Structural)]
pub struct TelnetOption {
    code: u8,
}

impl View for TelnetOption {
    type V = u8;

    closed spec fn view(&self) -> u8 {
        self.code
    }
}

impl TelnetOption {
    pub fn new(byte: u8) -> (r: Self)
        ensures
            r@ == byte,
    {
        TelnetOption { code: byte }
    }

    pub fn raw(self) -> (r: u8)
        ensures
            r == self@,
    {
        self.code
    }

    pub fn index(self) -> (r: usize)
        ensures
            r == self@ as usize,
            r < 256,
    {
        self.code as usize
    }
}

/// The four per-option tables of the negotiation: what the server answers to
/// DO/DONT (`options`) and to WILL/WONT (`willack`), and the last DO/DONT and
/// WILL/WONT it sent for each option.
pub struct TelnetTables {
    pub options: Seq<Option<TelnetCommand>>,
    pub willack: Seq<Option<TelnetCommand>>,
    pub do_set: Seq<Option<TelnetCommand>>,
    pub will_set: Seq<Option<TelnetCommand>>,
}

/// An entry of the option tables: nothing yet, or one of DO, DONT, WILL,
/// WONT.
pub open spec fn is_stance(c: Option<TelnetCommand>) -> bool {
    match c {
        None => true,
        Some(command) => command is Do || command is Dont || command is Will || command is Wont,
    }
}

/// All four tables have an entry for every option byte, and every entry is
/// empty or a DO, DONT, WILL or WONT.
pub open spec fn tables_wf(t: TelnetTables) -> bool {
    &&& t.options.len() == 256
    &&& t.willack.len() == 256
    &&& t.do_set.len() == 256
    &&& t.will_set.len() == 256
    &&& forall|i: int| 0 <= i < 256 ==> #[trigger] is_stance(t.options[i])
    &&& forall|i: int| 0 <= i < 256 ==> #[trigger] is_stance(t.willack[i])
    &&& forall|i: int| 0 <= i < 256 ==> #[trigger] is_stance(t.do_set[i])
    &&& forall|i: int| 0 <= i < 256 ==> #[trigger] is_stance(t.will_set[i])
}

/// The server's stance before any negotiation: it will not echo but will
/// suppress go-ahead and will not do NEW-ENVIRON; it asks the client to
/// echo, to suppress go-ahead, and to send its window size, terminal type and
/// environment, and it refuses line mode.
pub open spec fn initial_tables() -> TelnetTables {
    TelnetTables {
        options: Seq::new(256, |i: int| {
            if i == ECHO {
                Some(TelnetCommand::Wont)
            } else if i == SGA {
                Some(TelnetCommand::Will)
            } else if i == NEW_ENVIRON {
                Some(TelnetCommand::Wont)
            } else {
                None
            }
        }),
        willack: Seq::new(256, |i: int| {
            if i == ECHO || i == SGA || i == NAWS || i == TTYPE || i == NEW_ENVIRON {
                Some(TelnetCommand::Do)
            } else if i == LINEMODE {
                Some(TelnetCommand::Dont)
            } else {
                None
            }
        }),
        do_set: Seq::new(256, |i: int| None),
        will_set: Seq::new(256, |i: int| None),
    }
}

/// Sending `command` about `option`: a DO/DONT or WILL/WONT goes out only
/// when it differs from the last one sent for that option, and is then
/// remembered; any other command goes out as IAC and the command.
pub open spec fn option_command_step(t: TelnetTables, command: TelnetCommand, option: u8) -> (TelnetTables, Seq<u8>) {
    match command {
        TelnetCommand::Do | TelnetCommand::Dont => {
            if t.do_set[option as int] != Some(command) {
                (
                    TelnetTables { do_set: t.do_set.update(option as int, Some(command)), ..t },
                    seq![IAC, command_byte(command), option],
                )
            } else {
                (t, Seq::empty())
            }
        },
        TelnetCommand::Will | TelnetCommand::Wont => {
            if t.will_set[option as int] != Some(command) {
                (
                    TelnetTables { will_set: t.will_set.update(option as int, Some(command)), ..t },
                    seq![IAC, command_byte(command), option],
                )
            } else {
                (t, Seq::empty())
            }
        },
        _ => (t, seq![IAC, command_byte(command)]),
    }
}

/// The per-option negotiation tables.
pub struct TelnetState {
    options: Vec<Option<TelnetCommand>>,
    willack: Vec<Option<TelnetCommand>>,
    do_set: Vec<Option<TelnetCommand>>,
    will_set: Vec<Option<TelnetCommand>>,
}

fn table_of(entries: &[(u8, TelnetCommand)]) -> (r: Vec<Option<TelnetCommand>>)
    ensures
        r@.len() == 256,
        forall|i: int| 0 <= i < 256 ==> #[trigger] r@[i] == table_lookup(entries@, i),
{
    let mut table: Vec<Option<TelnetCommand>> = Vec::new();
    let mut k: usize = 0;
    while k < 256
        invariant
            k <= 256,
            table@.len() == k,
            forall|j: int| 0 <= j < k ==> #[trigger] table@[j] == None::<TelnetCommand>,
        decreases 256 - k,
    {
        table.push(None);
        k = k + 1;
    }
    let n = entries.len();
    let mut i: usize = 0;
    while i < n
        invariant
            n == entries@.len(),
            i <= n,
            table@.len() == 256,
            forall|j: int| 0 <= j < 256 ==> #[trigger] table@[j] == table_lookup(entries@.take(i as int), j),
        decreases n - i,
    {
        let (option, command) = entries[i];
        table.set(option as usize, Some(command));
        proof {
            assert(entries@.take(i + 1).drop_last() =~= entries@.take(i as int));
            assert forall|j: int| 0 <= j < 256 implies #[trigger] table@[j] == table_lookup(entries@.take(i + 1), j) by {
                assert(entries@.take(i + 1).last() == entries@[i as int]);
            }
        }
        i = i + 1;
    }
    assert(entries@.take(n as int) =~= entries@);
    table
}

/// The command of the last entry for option `i`, if any.
pub open spec fn table_lookup(entries: Seq<(u8, TelnetCommand)>, i: int) -> Option<TelnetCommand>
    decreases entries.len(),
{
    if entries.len() == 0 {
        None
    } else if entries.last().0 == i {
        Some(entries.last().1)
    } else {
        table_lookup(entries.drop_last(), i)
    }
}

impl TelnetState {
    pub closed spec fn tables(self) -> TelnetTables {
        TelnetTables {
            options: self.options@,
            willack: self.willack@,
            do_set: self.do_set@,
            will_set: self.will_set@,
        }
    }

    pub open spec fn wf(self) -> bool {
        tables_wf(self.tables())
    }

    /// The tables before any negotiation.
    pub fn new() -> (r: Self)
        ensures
            r.wf(),
            r.tables() == initial_tables(),
    {
        let options = table_of(
            &[(ECHO, TelnetCommand::Wont), (SGA, TelnetCommand::Will), (NEW_ENVIRON, TelnetCommand::Wont)],
        );
        let willack = table_of(
            &[
                (ECHO, TelnetCommand::Do),
                (SGA, TelnetCommand::Do),
                (NAWS, TelnetCommand::Do),
                (TTYPE, TelnetCommand::Do),
                (LINEMODE, TelnetCommand::Dont),
                (NEW_ENVIRON, TelnetCommand::Do),
            ],
        );
        let do_set = table_of(&[]);
        let will_set = table_of(&[]);
        let r = TelnetState { options, willack, do_set, will_set };
        proof {
            let init = initial_tables();
            reveal_with_fuel(table_lookup, 7);
            assert(r.tables().options =~= init.options);
            assert(r.tables().willack =~= init.willack);
            assert(r.tables().do_set =~= init.do_set);
            assert(r.tables().will_set =~= init.will_set);
        }
        r
    }

    /// Appends IAC and `command`.
    pub fn push_command(&mut self, out: &mut Vec<u8>, command: TelnetCommand)
        ensures
            final(self).tables() == old(self).tables(),
            final(out)@ == old(out)@ + seq![IAC, command_byte(command)],
    {
        out.push(IAC);
        out.push(command.raw());
        assert(out@ =~= old(out)@ + seq![IAC, command_byte(command)]);
    }

    /// Sends `command` about `option`, suppressing a DO/DONT or WILL/WONT
    /// that repeats the last one sent for the option.
    pub fn push_option_command(&mut self, out: &mut Vec<u8>, command: TelnetCommand, option: TelnetOption)
        requires
            old(self).wf(),
        ensures
            final(self).wf(),
            final(self).tables() == option_command_step(old(self).tables(), command, option@).0,
            final(out)@ == old(out)@ + option_command_step(old(self).tables(), command, option@).1,
    {
        let i = option.index();
        match command {
            TelnetCommand::Do | TelnetCommand::Dont => {
                if self.do_set[i] != Some(command) {
                    self.do_set.set(i, Some(command));
                    out.push(IAC);
                    out.push(command.raw());
                    out.push(option.raw());
                }
            },
            TelnetCommand::Will | TelnetCommand::Wont => {
                if self.will_set[i] != Some(command) {
                    self.will_set.set(i, Some(command));
                    out.push(IAC);
                    out.push(command.raw());
                    out.push(option.raw());
                }
            },
            _ => self.push_command(out, command),
        }
        proof {
            let step = option_command_step(old(self).tables(), command, option@);
            assert(self.tables() =~= step.0);
            assert(out@ =~= old(out)@ + step.1);
        }
    }
}

impl TelnetState {
    /// Sends the command byte `cmd` about option `opt`, as
    /// `push_option_command` does for the command the byte names; a byte
    /// naming no negotiation goes out as IAC and the byte.
    pub fn send_command(&mut self, out: &mut Vec<u8>, cmd: u8, opt: u8)
        requires
            old(self).wf(),
        ensures
            final(self).wf(),
            final(self).tables() == option_command_step(old(self).tables(), command_of_byte(cmd), opt).0,
            final(out)@ == old(out)@ + option_command_step(old(self).tables(), command_of_byte(cmd), opt).1,
    {
        self.push_option_command(out, TelnetCommand::from_byte(cmd), TelnetOption::new(opt));
    }
}

/// Repeating a DO, DONT, WILL or WONT for the same option sends nothing the
/// second time and leaves the tables as they were.
pub proof fn lemma_option_command_not_repeated(t: TelnetTables, command: TelnetCommand, option: u8)
    requires
        tables_wf(t),
        command is Do || command is Dont || command is Will || command is Wont,
    ensures
        ({
            let first = option_command_step(t, command, option);
            let second = option_command_step(first.0, command, option);
            second.1 == Seq::<u8>::empty() && second.0 == first.0
        }),
{
}

/// What the negotiation learnt about the client.
#[derive(Debug, Default, PartialEq, Eq)]
pub struct TelnetInfo {
    pub term: Option<String>,
    pub size: Option<TerminalSize>,
}

pub open spec fn option_string(s: Option<String>) -> Option<Seq<char>> {
    match s {
        Some(t) => Some(t@),
        None => None,
    }
}

/// The characters that `String::from_utf8_lossy` decodes `bytes` to.
pub uninterp spec fn utf8_lossy(bytes: Seq<u8>) -> Seq<char>;

/// The characters received bytes are read as: their UTF-8 decoding when
/// they are valid UTF-8; otherwise what `String::from_utf8_lossy` makes of
/// them, with replacement characters for the invalid sequences.
pub open spec fn decoded_text(bytes: Seq<u8>) -> Seq<char> {
    if valid_utf8(bytes) {
        decode_utf8(bytes)
    } else {
        utf8_lossy(bytes)
    }
}

/// ASCII bytes are read as the characters they encode: a terminal type
/// sent as the bytes of `xterm` arrives as `xterm`.
pub proof fn lemma_ascii_text(bytes: Seq<u8>)
    requires
        forall|i: int| 0 <= i < bytes.len() ==> #[trigger] bytes[i] < 0x80,
    ensures
        decoded_text(bytes) == Seq::new(bytes.len(), |i: int| bytes[i] as char),
{
    let chars = Seq::new(bytes.len(), |i: int| bytes[i] as char);
    assert(vstd::utf8::is_ascii_chars(chars)) by {
        assert forall|i: int| 0 <= i < chars.len() implies '\0' <= #[trigger] chars[i] <= '\u{7f}' by {
            assert(bytes[i] < 0x80);
        }
    }
    vstd::utf8::is_ascii_chars_encode_utf8(chars);
    assert forall|i: int| 0 <= i < bytes.len() implies vstd::utf8::encode_utf8(chars)[i] == bytes[i] by {
        assert(chars[i] as u8 == vstd::utf8::encode_utf8(chars)[i]);
        assert((bytes[i] as char) as u8 == bytes[i]);
    }
    assert(vstd::utf8::encode_utf8(chars) =~= bytes);
    vstd::utf8::encode_utf8_valid_utf8(chars);
    vstd::utf8::encode_utf8_decode_utf8(chars);
}

/// Calls `String::from_utf8_lossy`. Its documentation says that a valid
/// UTF-8 sequence decodes to the characters it encodes; what replacement
/// characters stand for invalid sequences is left to the name `utf8_lossy`.
#[verifier::external_body]
pub(crate) fn decode_lossy(bytes: &[u8]) -> (r: String)
    ensures
        r@ == utf8_lossy(bytes@),
        valid_utf8(bytes@) ==> r@ == decode_utf8(bytes@),
{
    String::from_utf8_lossy(bytes).into_owned()
}

/// A completed subnegotiation the server understands.
#[derive(Debug, PartialEq, Eq)]
pub enum Subnegotiation {
    TerminalType(String),
    WindowSize(TerminalSize),
}

/// The two big-endian bytes at `at` as a number.
pub open spec fn be16(bytes: Seq<u8>, at: int) -> int {
    bytes[at] * 256 + bytes[at + 1]
}

/// What a subnegotiation payload says, as a value.
pub enum SubnegotiationModel {
    TerminalType(Seq<char>),
    WindowSize(TerminalSize),
}

/// A subnegotiation payload read as terminal type or window size:
/// `TTYPE IS name...` gives the name (the IS byte is not checked);
/// `NAWS w1 w0 h1 h0` gives a size unless a dimension is zero; anything
/// else, or a payload too short, gives nothing.
pub open spec fn subnegotiation_of(bytes: Seq<u8>) -> Option<SubnegotiationModel> {
    if bytes.len() >= 2 && bytes[0] == TTYPE {
        Some(SubnegotiationModel::TerminalType(decoded_text(bytes.subrange(2, bytes.len() as int))))
    } else if bytes.len() >= 5 && bytes[0] == NAWS && be16(bytes, 1) > 0 && be16(bytes, 3) > 0 {
        Some(SubnegotiationModel::WindowSize(TerminalSize { width: be16(bytes, 1) as i32, height: be16(bytes, 3) as i32 }))
    } else {
        None
    }
}

impl Subnegotiation {
    pub open spec fn model(&self) -> SubnegotiationModel {
        match self {
            Subnegotiation::TerminalType(t) => SubnegotiationModel::TerminalType(t@),
            Subnegotiation::WindowSize(s) => SubnegotiationModel::WindowSize(*s),
        }
    }
}

pub open spec fn subnegotiation_matches(r: Option<Subnegotiation>, bytes: Seq<u8>) -> bool {
    match r {
        Some(sub) => subnegotiation_of(bytes) == Some(sub.model()),
        None => subnegotiation_of(bytes) is None,
    }
}

/// Reads a subnegotiation payload as terminal type or window size.
pub fn parse_subnegotiation(bytes: &[u8]) -> (r: Option<Subnegotiation>)
    ensures
        subnegotiation_matches(r, bytes@),
{
    let n = bytes.len();
    if n >= 2 && bytes[0] == TTYPE {
        let name = slice_from(bytes, 2);
        Some(Subnegotiation::TerminalType(decode_lossy(name.as_slice())))
    } else if n >= 5 && bytes[0] == NAWS {
        let width: i32 = bytes[1] as i32 * 256 + bytes[2] as i32;
        let height: i32 = bytes[3] as i32 * 256 + bytes[4] as i32;
        match TerminalSize::try_new(width, height) {
            Some(size) => Some(Subnegotiation::WindowSize(size)),
            None => None,
        }
    } else {
        None
    }
}

/// The bytes of `bytes` from `start` on.
pub(crate) fn slice_from(bytes: &[u8], start: usize) -> (r: Vec<u8>)
    requires
        start <= bytes@.len(),
    ensures
        r@ == bytes@.subrange(start as int, bytes@.len() as int),
{
    let n = bytes.len();
    let mut r: Vec<u8> = Vec::new();
    let mut i: usize = start;
    while i < n
        invariant
            n == bytes@.len(),
            start <= i <= n,
            r@ == bytes@.subrange(start as int, i as int),
        decreases n - i,
    {
        r.push(bytes[i]);
        i = i + 1;
        assert(r@ =~= bytes@.subrange(start as int, i as int));
    }
    r
}

/// Where the byte parser is in the telnet stream.
#[derive(Clone, Copy, Debug, PartialEq, Eq, Structural)]
pub enum TelnetParserState {
    /// Plain data.
    Data,
    /// Data, right after IAC.
    DataIac,
    /// After a DO/DONT/WILL/WONT, waiting for its option byte.
    CommandOption { command: TelnetCommand, in_subnegotiation: bool },
    /// Inside a subnegotiation, collecting its payload.
    Subnegotiation,
    /// Inside a subnegotiation, right after IAC.
    SubnegotiationIac,
}

/// Something the byte parser recognised.
#[derive(Debug, PartialEq, Eq)]
pub enum TelnetEvent {
    Command(TelnetCommand),
    Negotiation { command: TelnetCommand, option: TelnetOption },
    Subnegotiation(Vec<u8>),
}

/// A parser event as a value.
pub enum EventModel {
    Command(TelnetCommand),
    Negotiation(TelnetCommand, u8),
    Subnegotiation(Seq<u8>),
}

impl TelnetEvent {
    pub open spec fn model(&self) -> EventModel {
        match self {
            TelnetEvent::Command(c) => EventModel::Command(*c),
            TelnetEvent::Negotiation { command, option } => EventModel::Negotiation(*command, option@),
            TelnetEvent::Subnegotiation(bytes) => EventModel::Subnegotiation(bytes@),
        }
    }
}

pub open spec fn event_option_model(e: Option<TelnetEvent>) -> Option<EventModel> {
    match e {
        Some(ev) => Some(ev.model()),
        None => None,
    }
}

/// The parser's position and the subnegotiation payload collected so far.
pub struct ParserModel {
    pub state: TelnetParserState,
    pub sb: Seq<u8>,
}

/// Longest subnegotiation payload kept; later bytes are dropped.
pub open spec fn sb_limit() -> nat {
    1023
}

pub open spec fn resume_state(in_subnegotiation: bool) -> TelnetParserState {
    if in_subnegotiation {
        TelnetParserState::Subnegotiation
    } else {
        TelnetParserState::Data
    }
}

pub open spec fn push_limited(sb: Seq<u8>, byte: u8) -> Seq<u8> {
    if sb.len() < sb_limit() {
        sb.push(byte)
    } else {
        sb
    }
}

/// The byte after an IAC: SE ends a subnegotiation and reports its payload;
/// NOP is reported; DO/DONT/WILL/WONT wait for their option; SB starts a new
/// payload; a second IAC is an escaped 255 (payload data inside a
/// subnegotiation, ignored outside); any other command is ignored.
pub open spec fn iac_step(m: ParserModel, byte: u8, in_subnegotiation: bool) -> (ParserModel, Option<EventModel>) {
    let command = command_of_byte(byte);
    match command {
        TelnetCommand::Se => (ParserModel { state: TelnetParserState::Data, sb: m.sb }, Some(EventModel::Subnegotiation(m.sb))),
        TelnetCommand::Nop => (ParserModel { state: resume_state(in_subnegotiation), sb: m.sb }, Some(EventModel::Command(TelnetCommand::Nop))),
        TelnetCommand::Will | TelnetCommand::Wont | TelnetCommand::Do | TelnetCommand::Dont => (
            ParserModel { state: TelnetParserState::CommandOption { command, in_subnegotiation }, sb: m.sb },
            None,
        ),
        TelnetCommand::Sb => (ParserModel { state: TelnetParserState::Subnegotiation, sb: Seq::empty() }, None),
        TelnetCommand::Iac => if in_subnegotiation {
            (ParserModel { state: TelnetParserState::Subnegotiation, sb: push_limited(m.sb, IAC) }, None)
        } else {
            (ParserModel { state: TelnetParserState::Data, sb: m.sb }, None)
        },
        _ => (ParserModel { state: resume_state(in_subnegotiation), sb: m.sb }, None),
    }
}

/// One byte through the telnet parser.
pub open spec fn parser_step(m: ParserModel, byte: u8) -> (ParserModel, Option<EventModel>) {
    match m.state {
        TelnetParserState::Data => if byte == IAC {
            (ParserModel { state: TelnetParserState::DataIac, sb: m.sb }, None)
        } else {
            (m, None)
        },
        TelnetParserState::DataIac => iac_step(m, byte, false),
        TelnetParserState::CommandOption { command, in_subnegotiation } => (
            ParserModel { state: resume_state(in_subnegotiation), sb: m.sb },
            Some(EventModel::Negotiation(command, byte)),
        ),
        TelnetParserState::Subnegotiation => if byte == IAC {
            (ParserModel { state: TelnetParserState::SubnegotiationIac, sb: m.sb }, None)
        } else {
            (ParserModel { state: TelnetParserState::Subnegotiation, sb: push_limited(m.sb, byte) }, None)
        },
        TelnetParserState::SubnegotiationIac => iac_step(m, byte, true),
    }
}

/// A byte-at-a-time telnet stream parser.
pub struct TelnetParser {
    state: TelnetParserState,
    sb: Vec<u8>,
}

impl TelnetParser {
    pub closed spec fn model(self) -> ParserModel {
        ParserModel { state: self.state, sb: self.sb@ }
    }

    pub fn new() -> (r: Self)
        ensures
            r.model() == (ParserModel { state: TelnetParserState::Data, sb: Seq::empty() }),
    {
        TelnetParser { state: TelnetParserState::Data, sb: Vec::with_capacity(1024) }
    }

    /// Feeds one byte; returns the event it completes, if any.
    pub fn push(&mut self, byte: u8) -> (r: Option<TelnetEvent>)
        ensures
            (final(self).model(), event_option_model(r)) == parser_step(old(self).model(), byte),
    {
        match self.state {
            TelnetParserState::Data => {
                if byte == IAC {
                    self.state = TelnetParserState::DataIac;
                }
                None
            },
            TelnetParserState::DataIac => self.handle_iac(byte, false),
            TelnetParserState::CommandOption { command, in_subnegotiation } => {
                self.state = if in_subnegotiation {
                    TelnetParserState::Subnegotiation
                } else {
                    TelnetParserState::Data
                };
                Some(TelnetEvent::Negotiation { command, option: TelnetOption::new(byte) })
            },
            TelnetParserState::Subnegotiation => {
                if byte == IAC {
                    self.state = TelnetParserState::SubnegotiationIac;
                } else if self.sb.len() < 1023 {
                    self.sb.push(byte);
                }
                None
            },
            TelnetParserState::SubnegotiationIac => self.handle_iac(byte, true),
        }
    }

    /// Handles the byte after an IAC.
    pub fn handle_iac(&mut self, byte: u8, in_subnegotiation: bool) -> (r: Option<TelnetEvent>)
        ensures
            (final(self).model(), event_option_model(r)) == iac_step(old(self).model(), byte, in_subnegotiation),
    {
        let command = TelnetCommand::from_byte(byte);
        match command {
            TelnetCommand::Se => {
                self.state = TelnetParserState::Data;
                Some(TelnetEvent::Subnegotiation(self.sb.clone()))
            },
            TelnetCommand::Nop => {
                self.state = if in_subnegotiation {
                    TelnetParserState::Subnegotiation
                } else {
                    TelnetParserState::Data
                };
                Some(TelnetEvent::Command(TelnetCommand::Nop))
            },
            TelnetCommand::Will | TelnetCommand::Wont | TelnetCommand::Do | TelnetCommand::Dont => {
                self.state = TelnetParserState::CommandOption { command, in_subnegotiation };
                None
            },
            TelnetCommand::Sb => {
                self.state = TelnetParserState::Subnegotiation;
                self.sb.clear();
                None
            },
            TelnetCommand::Iac => {
                if in_subnegotiation {
                    self.state = TelnetParserState::Subnegotiation;
                    if self.sb.len() < 1023 {
                        self.sb.push(IAC);
                    }
                } else {
                    self.state = TelnetParserState::Data;
                }
                None
            },
            _ => {
                self.state = if in_subnegotiation {
                    TelnetParserState::Subnegotiation
                } else {
                    TelnetParserState::Data
                };
                None
            },
        }
    }
}

/// The negotiation as a value: the option tables, what was learnt, and
/// which of terminal type and window size have arrived.
pub struct NegotiationModel {
    pub tables: TelnetTables,
    pub term: Option<Seq<char>>,
    pub size: Option<TerminalSize>,
    pub got_ttype: bool,
    pub got_naws: bool,
}

pub open spec fn initial_negotiation() -> NegotiationModel {
    NegotiationModel { tables: initial_tables(), term: None, size: None, got_ttype: false, got_naws: false }
}

pub open spec fn negotiation_wf(m: NegotiationModel) -> bool {
    tables_wf(m.tables)
}

/// Negotiation is over once both the terminal type and the window size
/// have been reported.
pub open spec fn negotiation_complete(m: NegotiationModel) -> bool {
    m.got_ttype && m.got_naws
}

/// IAC SB TTYPE SEND IAC SE: asks the client for its terminal type.
pub open spec fn ttype_request() -> Seq<u8> {
    seq![IAC, 250u8, TTYPE, SEND, IAC, 240u8]
}

/// The answer to WILL/WONT `option`: the acknowledgement from `willack`,
/// WONT for an option with none (which is remembered); after WILL TTYPE,
/// also the request for the terminal type.
pub open spec fn will_wont_step(m: NegotiationModel, command: TelnetCommand, option: u8) -> (NegotiationModel, Seq<u8>) {
    let t1 = if m.tables.willack[option as int] is None {
        TelnetTables { willack: m.tables.willack.update(option as int, Some(TelnetCommand::Wont)), ..m.tables }
    } else {
        m.tables
    };
    let sent = option_command_step(t1, t1.willack[option as int].unwrap(), option);
    let out = if command == TelnetCommand::Will && option == TTYPE {
        sent.1 + ttype_request()
    } else {
        sent.1
    };
    (NegotiationModel { tables: sent.0, ..m }, out)
}

/// The answer to DO/DONT `option`: the stance from `options`, DONT for an
/// option with none (which is remembered).
pub open spec fn do_dont_step(m: NegotiationModel, option: u8) -> (NegotiationModel, Seq<u8>) {
    let t1 = if m.tables.options[option as int] is None {
        TelnetTables { options: m.tables.options.update(option as int, Some(TelnetCommand::Dont)), ..m.tables }
    } else {
        m.tables
    };
    let sent = option_command_step(t1, t1.options[option as int].unwrap(), option);
    (NegotiationModel { tables: sent.0, ..m }, sent.1)
}

/// A subnegotiation: a terminal type or window size is recorded (and
/// reported as news); anything else changes nothing.
pub open spec fn subnegotiation_step(m: NegotiationModel, payload: Seq<u8>) -> (NegotiationModel, bool) {
    match subnegotiation_of(payload) {
        Some(SubnegotiationModel::TerminalType(name)) => (NegotiationModel { term: Some(name), got_ttype: true, ..m }, true),
        Some(SubnegotiationModel::WindowSize(size)) => (NegotiationModel { size: Some(size), got_naws: true, ..m }, true),
        None => (m, false),
    }
}

/// One parser event through the negotiation: the new state, the bytes to
/// send back, and whether news arrived (which extends the wait).
pub open spec fn negotiation_step(m: NegotiationModel, e: EventModel) -> (NegotiationModel, Seq<u8>, bool) {
    match e {
        EventModel::Command(TelnetCommand::Nop) => (m, seq![IAC, 241u8], false),
        EventModel::Command(_) => (m, Seq::empty(), false),
        EventModel::Negotiation(command, option) => match command {
            TelnetCommand::Will | TelnetCommand::Wont => {
                let r = will_wont_step(m, command, option);
                (r.0, r.1, false)
            },
            TelnetCommand::Do | TelnetCommand::Dont => {
                let r = do_dont_step(m, option);
                (r.0, r.1, false)
            },
            _ => (m, Seq::empty(), false),
        },
        EventModel::Subnegotiation(payload) => {
            let r = subnegotiation_step(m, payload);
            (r.0, Seq::empty(), r.1)
        },
    }
}

/// The opening announcement for options below `upto`: for each option in
/// turn its stance from `options`, then its request from `willack`.
pub open spec fn announce(t: TelnetTables, upto: int) -> (TelnetTables, Seq<u8>)
    decreases upto,
{
    if upto <= 0 {
        (t, Seq::empty())
    } else {
        let before = announce(t, upto - 1);
        let option = (upto - 1) as u8;
        let stance = match before.0.options[upto - 1] {
            Some(c) => option_command_step(before.0, c, option),
            None => (before.0, Seq::<u8>::empty()),
        };
        let request = match stance.0.willack[upto - 1] {
            Some(c) => option_command_step(stance.0, c, option),
            None => (stance.0, Seq::<u8>::empty()),
        };
        (request.0, before.1 + stance.1 + request.1)
    }
}

/// The reply to one event, and whether it brought news.
pub struct NegotiationStep {
    pub output: Vec<u8>,
    pub extend_deadline: bool,
}

impl Default for NegotiationStep {
    fn default() -> (r: Self)
        ensures
            r.output@ == Seq::<u8>::empty(),
            !r.extend_deadline,
    {
        NegotiationStep { output: Vec::new(), extend_deadline: false }
    }
}

/// The server side of the option negotiation.
pub struct TelnetNegotiation {
    state: TelnetState,
    pub info: TelnetInfo,
    got_ttype: bool,
    got_naws: bool,
}

impl TelnetNegotiation {
    pub closed spec fn model(self) -> NegotiationModel {
        NegotiationModel {
            tables: self.state.tables(),
            term: option_string(self.info.term),
            size: self.info.size,
            got_ttype: self.got_ttype,
            got_naws: self.got_naws,
        }
    }

    pub fn new() -> (r: Self)
        ensures
            r.model() == initial_negotiation(),
    {
        TelnetNegotiation { state: TelnetState::new(), info: TelnetInfo { term: None, size: None }, got_ttype: false, got_naws: false }
    }

    /// The opening announcement: for each option in order, the server's
    /// stance and then its request, each sent once.
    pub fn initial_output(&mut self) -> (r: Vec<u8>)
        requires
            negotiation_wf(old(self).model()),
        ensures
            negotiation_wf(final(self).model()),
            r@ == announce(old(self).model().tables, 256).1,
            final(self).model() == (NegotiationModel { tables: announce(old(self).model().tables, 256).0, ..old(self).model() }),
    {
        let mut output: Vec<u8> = Vec::new();
        let ghost t0 = old(self).model().tables;
        let mut o: usize = 0;
        while o < 256
            invariant
                o <= 256,
                self.state.wf(),
                self.model() == (NegotiationModel { tables: announce(t0, o as int).0, ..old(self).model() }),
                output@ == announce(t0, o as int).1,
                tables_wf(t0),
            decreases 256 - o,
        {
            let option = TelnetOption::new(o as u8);
            let stance = self.state.options[option.index()];
            if let Some(command) = stance {
                self.state.push_option_command(&mut output, command, option);
            }
            let request = self.state.willack[option.index()];
            if let Some(command) = request {
                self.state.push_option_command(&mut output, command, option);
            }
            proof {
                assert(output@ =~= announce(t0, o + 1).1);
            }
            o = o + 1;
        }
        output
    }

    pub fn is_complete(&self) -> (r: bool)
        ensures
            r == negotiation_complete(self.model()),
    {
        self.got_ttype && self.got_naws
    }

    pub fn into_info(self) -> (r: TelnetInfo)
        ensures
            option_string(r.term) == self.model().term,
            r.size == self.model().size,
    {
        self.info
    }

    /// Answers one parser event.
    pub fn handle_event(&mut self, event: TelnetEvent) -> (r: NegotiationStep)
        requires
            negotiation_wf(old(self).model()),
        ensures
            negotiation_wf(final(self).model()),
            (final(self).model(), r.output@, r.extend_deadline) == negotiation_step(old(self).model(), event.model()),
    {
        let mut step = NegotiationStep::default();
        match event {
            TelnetEvent::Command(TelnetCommand::Nop) => {
                self.state.push_command(&mut step.output, TelnetCommand::Nop);
            },
            TelnetEvent::Command(_) => {},
            TelnetEvent::Negotiation { command, option } => match command {
                TelnetCommand::Will | TelnetCommand::Wont => {
                    self.handle_will_wont(command, option, &mut step.output)
                },
                TelnetCommand::Do | TelnetCommand::Dont => {
                    self.handle_do_dont(option, &mut step.output)
                },
                _ => {},
            },
            TelnetEvent::Subnegotiation(bytes) => {
                if self.handle_subnegotiation(bytes.as_slice()) {
                    step.extend_deadline = true;
                }
            },
        }
        step
    }

    /// Answers WILL/WONT `option`.
    pub fn handle_will_wont(&mut self, command: TelnetCommand, option: TelnetOption, output: &mut Vec<u8>)
        requires
            negotiation_wf(old(self).model()),
        ensures
            negotiation_wf(final(self).model()),
            final(self).model() == will_wont_step(old(self).model(), command, option@).0,
            final(output)@ == old(output)@ + will_wont_step(old(self).model(), command, option@).1,
    {
        let i = option.index();
        if self.state.willack[i].is_none() {
            self.state.willack.set(i, Some(TelnetCommand::Wont));
        }
        let ghost mid = output@;
        if let Some(response) = self.state.willack[i] {
            self.state.push_option_command(output, response, option);
        }
        if command == TelnetCommand::Will && option.raw() == TTYPE {
            output.push(IAC);
            output.push(TelnetCommand::Sb.raw());
            output.push(TTYPE);
            output.push(SEND);
            output.push(IAC);
            output.push(TelnetCommand::Se.raw());
        }
        proof {
            let r = will_wont_step(old(self).model(), command, option@);
            assert(self.model().tables =~= r.0.tables);
            assert(output@ =~= old(output)@ + r.1);
        }
    }

    /// Answers DO/DONT `option`.
    pub fn handle_do_dont(&mut self, option: TelnetOption, output: &mut Vec<u8>)
        requires
            negotiation_wf(old(self).model()),
        ensures
            negotiation_wf(final(self).model()),
            final(self).model() == do_dont_step(old(self).model(), option@).0,
            final(output)@ == old(output)@ + do_dont_step(old(self).model(), option@).1,
    {
        let i = option.index();
        if self.state.options[i].is_none() {
            self.state.options.set(i, Some(TelnetCommand::Dont));
        }
        if let Some(response) = self.state.options[i] {
            self.state.push_option_command(output, response, option);
        }
        proof {
            let r = do_dont_step(old(self).model(), option@);
            assert(self.model().tables =~= r.0.tables);
        }
    }

    /// Records a terminal type or window size; returns whether the payload
    /// was one of them.
    pub fn handle_subnegotiation(&mut self, bytes: &[u8]) -> (r: bool)
        ensures
            (final(self).model(), r) == subnegotiation_step(old(self).model(), bytes@),
    {
        match parse_subnegotiation(bytes) {
            Some(Subnegotiation::TerminalType(term)) => {
                self.info.term = Some(term);
                self.got_ttype = true;
                true
            },
            Some(Subnegotiation::WindowSize(size)) => {
                self.info.size = Some(size);
                self.got_naws = true;
                true
            },
            None => false,
        }
    }
}

/// One input byte through parser and negotiation: the new states, the bytes
/// to send back and whether news arrived.
pub open spec fn session_step(n: NegotiationModel, p: ParserModel, byte: u8) -> (NegotiationModel, ParserModel, Seq<u8>, bool) {
    let parsed = parser_step(p, byte);
    match parsed.1 {
        None => (n, parsed.0, Seq::empty(), false),
        Some(e) => {
            let r = negotiation_step(n, e);
            (r.0, parsed.0, r.1, r.2)
        },
    }
}

/// Feeds `input` until it runs out or the negotiation is complete: the
/// final states and everything sent back on the way.
pub open spec fn session_run(n: NegotiationModel, p: ParserModel, input: Seq<u8>) -> (NegotiationModel, ParserModel, Seq<u8>)
    decreases input.len(),
{
    if input.len() == 0 || negotiation_complete(n) {
        (n, p, Seq::empty())
    } else {
        let step = session_step(n, p, input[0]);
        let rest = session_run(step.0, step.1, input.drop_first());
        (rest.0, rest.1, step.2 + rest.2)
    }
}

/// A telnet connection's negotiation, fed one input byte at a time.
pub struct TelnetSession {
    negotiation: TelnetNegotiation,
    parser: TelnetParser,
}

impl TelnetSession {
    pub closed spec fn negotiation_model(self) -> NegotiationModel {
        self.negotiation.model()
    }

    pub closed spec fn parser_model(self) -> ParserModel {
        self.parser.model()
    }

    /// A new session and the announcement to send first.
    pub fn new() -> (r: (Self, Vec<u8>))
        ensures
            r.0.negotiation_model() == (NegotiationModel { tables: announce(initial_tables(), 256).0, ..initial_negotiation() }),
            negotiation_wf(r.0.negotiation_model()),
            r.0.parser_model() == (ParserModel { state: TelnetParserState::Data, sb: Seq::empty() }),
            r.1@ == announce(initial_tables(), 256).1,
    {
        let mut negotiation = TelnetNegotiation::new();
        let output = negotiation.initial_output();
        (TelnetSession { negotiation, parser: TelnetParser::new() }, output)
    }

    /// Feeds one input byte; returns what to send back and whether news
    /// arrived.
    pub fn feed(&mut self, byte: u8) -> (r: NegotiationStep)
        requires
            negotiation_wf(old(self).negotiation_model()),
        ensures
            negotiation_wf(final(self).negotiation_model()),
            (final(self).negotiation_model(), final(self).parser_model(), r.output@, r.extend_deadline)
                == session_step(old(self).negotiation_model(), old(self).parser_model(), byte),
    {
        match self.parser.push(byte) {
            None => NegotiationStep::default(),
            Some(event) => self.negotiation.handle_event(event),
        }
    }

    pub fn is_complete(&self) -> (r: bool)
        ensures
            r == negotiation_complete(self.negotiation_model()),
    {
        self.negotiation.is_complete()
    }

    pub fn into_info(self) -> (r: TelnetInfo)
        ensures
            option_string(r.term) == self.negotiation_model().term,
            r.size == self.negotiation_model().size,
    {
        self.negotiation.into_info()
    }
}

/// Runs the negotiation over the client bytes `input`, all known in
/// advance: sends the announcement, then feeds bytes until the client has
/// reported terminal type and window size or the input ends. Everything
/// sent goes to `out`; returns what was learnt.
pub fn negotiate_telnet_with_source(out: &mut Vec<u8>, input: &[u8]) -> (r: TelnetInfo)
    ensures
        ({
            let start = NegotiationModel { tables: announce(initial_tables(), 256).0, ..initial_negotiation() };
            let run = session_run(start, ParserModel { state: TelnetParserState::Data, sb: Seq::empty() }, input@);
            &&& final(out)@ == old(out)@ + announce(initial_tables(), 256).1 + run.2
            &&& option_string(r.term) == run.0.term
            &&& r.size == run.0.size
        }),
{
    let (mut session, announcement) = TelnetSession::new();
    out.extend_from_slice(announcement.as_slice());
    let ghost start_n = session.negotiation_model();
    let ghost start_p = session.parser_model();
    let ghost base = old(out)@ + announcement@;
    assert(out@ =~= base);
    let n = input.len();
    let mut i: usize = 0;
    assert(input@.subrange(0, n as int) =~= input@);
    while i < n && !session.is_complete()
        invariant
            n == input@.len(),
            i <= n,
            negotiation_wf(session.negotiation_model()),
            ({
                let whole = session_run(start_n, start_p, input@);
                let rest = session_run(session.negotiation_model(), session.parser_model(), input@.subrange(i as int, n as int));
                &&& whole.0 == rest.0
                &&& out@ + rest.2 == base + whole.2
            }),
        decreases n - i,
    {
        let ghost before_n = session.negotiation_model();
        let ghost before_p = session.parser_model();
        let step = session.feed(input[i]);
        out.extend_from_slice(step.output.as_slice());
        proof {
            let rest_before = input@.subrange(i as int, n as int);
            assert(rest_before.drop_first() =~= input@.subrange(i + 1, n as int));
            assert(rest_before[0] == input@[i as int]);
            let rest_after = session_run(session.negotiation_model(), session.parser_model(), input@.subrange(i + 1, n as int));
            assert(session_run(before_n, before_p, rest_before).2 == step.output@ + rest_after.2);
            assert(out@ + rest_after.2 =~= (out@.subrange(0, out@.len() - step.output@.len()) + step.output@) + rest_after.2);
        }
        i = i + 1;
    }
    proof {
        let rest = session_run(session.negotiation_model(), session.parser_model(), input@.subrange(i as int, n as int));
        assert(rest.2 =~= Seq::<u8>::empty());
        assert(out@ =~= out@ + rest.2);
    }
    session.into_info()
}

/// The bytes read from the client but not yet handed out.
pub struct TimeoutReader {
    buffer: Vec<u8>,
    head: usize,
}

impl TimeoutReader {
    pub closed spec fn pending(self) -> Seq<u8> {
        self.buffer@.subrange(self.head as int, self.buffer@.len() as int)
    }

    pub closed spec fn wf(self) -> bool {
        self.head <= self.buffer@.len()
    }

    pub fn new() -> (r: Self)
        ensures
            r.wf(),
            r.pending() == Seq::<u8>::empty(),
    {
        let r = TimeoutReader { buffer: Vec::with_capacity(1024), head: 0 };
        assert(r.pending() =~= Seq::<u8>::empty());
        r
    }

    /// The next byte already read, if any.
    pub fn next_buffered(&mut self) -> (r: Option<u8>)
        requires
            old(self).wf(),
        ensures
            final(self).wf(),
            old(self).pending().len() > 0 ==> r == Some(old(self).pending()[0]) && final(self).pending() == old(self).pending().drop_first(),
            old(self).pending().len() == 0 ==> r is None && final(self).pending() == old(self).pending(),
    {
        if self.head < self.buffer.len() {
            let byte = self.buffer[self.head];
            self.head = self.head + 1;
            assert(self.pending() =~= old(self).pending().drop_first());
            Some(byte)
        } else {
            None
        }
    }

    /// Takes a fresh read from the client: hands out its first byte and
    /// keeps the rest; an empty read (end of input) hands out nothing.
    pub fn refill(&mut self, data: &[u8]) -> (r: Option<u8>)
        ensures
            final(self).wf(),
            data@.len() > 0 ==> r == Some(data@[0]) && final(self).pending() == data@.drop_first(),
            data@.len() == 0 ==> r is None && final(self).pending() == Seq::<u8>::empty(),
    {
        self.buffer.clear();
        self.buffer.extend_from_slice(data);
        assert(self.buffer@ =~= data@);
        if data.len() == 0 {
            self.head = 0;
            assert(self.pending() =~= Seq::<u8>::empty());
            None
        } else {
            self.head = 1;
            assert(self.pending() =~= data@.drop_first());
            Some(data[0])
        }
    }
}

/// A payload as it travels inside a subnegotiation: every 255 doubled.
pub open spec fn escape_iac(payload: Seq<u8>) -> Seq<u8>
    decreases payload.len(),
{
    if payload.len() == 0 {
        Seq::empty()
    } else if payload[0] == IAC {
        seq![IAC, IAC] + escape_iac(payload.drop_first())
    } else {
        seq![payload[0]] + escape_iac(payload.drop_first())
    }
}

/// IAC SB, the escaped payload, IAC SE.
pub open spec fn framed_subnegotiation(payload: Seq<u8>) -> Seq<u8> {
    seq![IAC, 250u8] + escape_iac(payload) + seq![IAC, 240u8]
}

pub open spec fn event_seq(e: Option<EventModel>) -> Seq<EventModel> {
    match e {
        Some(ev) => seq![ev],
        None => Seq::empty(),
    }
}

/// `bytes` through the parser from `m`: the final parser and the events in
/// order.
pub open spec fn parse_bytes(m: ParserModel, bytes: Seq<u8>) -> (ParserModel, Seq<EventModel>)
    decreases bytes.len(),
{
    if bytes.len() == 0 {
        (m, Seq::empty())
    } else {
        let first = parser_step(m, bytes[0]);
        let rest = parse_bytes(first.0, bytes.drop_first());
        (rest.0, event_seq(first.1) + rest.1)
    }
}

/// Parsing two pieces in turn is parsing them joined.
pub proof fn lemma_parse_bytes_append(m: ParserModel, a: Seq<u8>, b: Seq<u8>)
    ensures
        ({
            let first = parse_bytes(m, a);
            let second = parse_bytes(first.0, b);
            parse_bytes(m, a + b) == (second.0, first.1 + second.1)
        }),
    decreases a.len(),
{
    if a.len() == 0 {
        assert(a + b =~= b);
        assert(Seq::<EventModel>::empty() + parse_bytes(m, b).1 =~= parse_bytes(m, b).1);
    } else {
        let step = parser_step(m, a[0]);
        lemma_parse_bytes_append(step.0, a.drop_first(), b);
        assert((a + b).drop_first() =~= a.drop_first() + b);
        assert((a + b)[0] == a[0]);
        let first = parse_bytes(step.0, a.drop_first());
        let second = parse_bytes(first.0, b);
        assert(event_seq(step.1) + (first.1 + second.1) =~= (event_seq(step.1) + first.1) + second.1);
    }
}

proof fn lemma_parse_one(m: ParserModel, byte: u8)
    ensures
        parse_bytes(m, seq![byte]) == (parser_step(m, byte).0, event_seq(parser_step(m, byte).1)),
{
    let single = seq![byte];
    assert(single.drop_first() =~= Seq::<u8>::empty());
    assert(single[0] == byte);
    assert(parse_bytes(parser_step(m, byte).0, single.drop_first()) == (parser_step(m, byte).0, Seq::<EventModel>::empty()));
    assert(event_seq(parser_step(m, byte).1) + Seq::<EventModel>::empty() =~= event_seq(parser_step(m, byte).1));
}

proof fn lemma_parse_two(m: ParserModel, a: u8, b: u8)
    ensures
        ({
            let first = parser_step(m, a);
            let second = parser_step(first.0, b);
            parse_bytes(m, seq![a, b]) == (second.0, event_seq(first.1) + event_seq(second.1))
        }),
{
    lemma_parse_bytes_append(m, seq![a], seq![b]);
    assert(seq![a] + seq![b] =~= seq![a, b]);
    lemma_parse_one(m, a);
    lemma_parse_one(parser_step(m, a).0, b);
}

proof fn lemma_escaped_payload(sb: Seq<u8>, payload: Seq<u8>)
    requires
        sb.len() + payload.len() <= sb_limit(),
    ensures
        parse_bytes(ParserModel { state: TelnetParserState::Subnegotiation, sb }, escape_iac(payload))
            == (ParserModel { state: TelnetParserState::Subnegotiation, sb: sb + payload }, Seq::<EventModel>::empty()),
    decreases payload.len(),
{
    let m = ParserModel { state: TelnetParserState::Subnegotiation, sb };
    if payload.len() == 0 {
        assert(sb + payload =~= sb);
    } else {
        let rest = payload.drop_first();
        let next_sb = sb.push(payload[0]);
        lemma_escaped_payload(next_sb, rest);
        assert(next_sb + rest =~= sb + payload);
        if payload[0] == IAC {
            let pair = seq![IAC, IAC];
            lemma_parse_bytes_append(m, pair, escape_iac(rest));
            lemma_parse_two(m, IAC, IAC);
            assert(Seq::<EventModel>::empty() + Seq::<EventModel>::empty() =~= Seq::<EventModel>::empty());
            assert(parse_bytes(m, pair) == (ParserModel { state: TelnetParserState::Subnegotiation, sb: next_sb }, Seq::<EventModel>::empty()));
            assert(escape_iac(payload) == pair + escape_iac(rest));
            assert(Seq::<EventModel>::empty() + Seq::<EventModel>::empty() =~= Seq::<EventModel>::empty());
        } else {
            let single = seq![payload[0]];
            lemma_parse_bytes_append(m, single, escape_iac(rest));
            lemma_parse_one(m, payload[0]);
            assert(escape_iac(payload) == single + escape_iac(rest));
            assert(parse_bytes(m, single) == (ParserModel { state: TelnetParserState::Subnegotiation, sb: next_sb }, Seq::<EventModel>::empty()));
            assert(Seq::<EventModel>::empty() + Seq::<EventModel>::empty() =~= Seq::<EventModel>::empty());
        }
    }
}

/// A subnegotiation sent with its 255 bytes doubled, as telnet requires,
/// reaches the negotiation as exactly the payload that was sent, and the parser
/// is back at plain data; this holds for payloads up to the kept length,
/// from any point of plain data.
pub proof fn lemma_subnegotiation_round_trip(sb: Seq<u8>, payload: Seq<u8>)
    requires
        payload.len() <= sb_limit(),
    ensures
        parse_bytes(ParserModel { state: TelnetParserState::Data, sb }, framed_subnegotiation(payload))
            == (ParserModel { state: TelnetParserState::Data, sb: payload }, seq![EventModel::Subnegotiation(payload)]),
{
    let m = ParserModel { state: TelnetParserState::Data, sb };
    let open = seq![IAC, 250u8];
    let close = seq![IAC, 240u8];
    let inner = ParserModel { state: TelnetParserState::Subnegotiation, sb: Seq::empty() };
    lemma_parse_two(m, IAC, 250u8);
    assert(Seq::<EventModel>::empty() + Seq::<EventModel>::empty() =~= Seq::<EventModel>::empty());
    assert(parse_bytes(m, open) == (inner, Seq::<EventModel>::empty()));
    lemma_escaped_payload(Seq::empty(), payload);
    assert(Seq::<u8>::empty() + payload =~= payload);
    let body_end = ParserModel { state: TelnetParserState::Subnegotiation, sb: payload };
    lemma_parse_two(body_end, IAC, 240u8);
    assert(Seq::<EventModel>::empty() + seq![EventModel::Subnegotiation(payload)] =~= seq![EventModel::Subnegotiation(payload)]);
    let after_close = parse_bytes(body_end, close);
    assert(after_close == (ParserModel { state: TelnetParserState::Data, sb: payload }, seq![EventModel::Subnegotiation(payload)]));
    lemma_parse_bytes_append(m, open, escape_iac(payload));
    lemma_parse_bytes_append(m, open + escape_iac(payload), close);
    assert(Seq::<EventModel>::empty() + Seq::<EventModel>::empty() =~= Seq::<EventModel>::empty());
    assert(Seq::<EventModel>::empty() + seq![EventModel::Subnegotiation(payload)] =~= seq![EventModel::Subnegotiation(payload)]);
}

/// The subnegotiation payload the parser keeps never grows past its limit.
pub proof fn lemma_parser_payload_bounded(m: ParserModel, byte: u8)
    requires
        m.sb.len() <= sb_limit(),
    ensures
        parser_step(m, byte).0.sb.len() <= sb_limit(),
{
}

/// Every subnegotiation payload among `events` is within the kept length.
pub open spec fn payloads_bounded(events: Seq<EventModel>) -> bool {
    forall|i: int| 0 <= i < events.len() ==> (#[trigger] events[i] matches EventModel::Subnegotiation(p) ==> p.len() <= sb_limit())
}

/// A parser that starts with its payload within the limit keeps it there
/// whatever bytes follow, and every payload it reports is within the limit
/// too: bytes past the 1023rd are dropped, not kept.
pub proof fn lemma_parse_bytes_bounded(m: ParserModel, bytes: Seq<u8>)
    requires
        m.sb.len() <= sb_limit(),
    ensures
        parse_bytes(m, bytes).0.sb.len() <= sb_limit(),
        payloads_bounded(parse_bytes(m, bytes).1),
    decreases bytes.len(),
{
    if bytes.len() > 0 {
        let first = parser_step(m, bytes[0]);
        lemma_parser_payload_bounded(m, bytes[0]);
        lemma_parse_bytes_bounded(first.0, bytes.drop_first());
        let rest = parse_bytes(first.0, bytes.drop_first());
        let events = event_seq(first.1) + rest.1;
        assert forall|i: int| 0 <= i < events.len() implies (#[trigger] events[i] matches EventModel::Subnegotiation(p) ==> p.len() <= sb_limit()) by {
            if i >= event_seq(first.1).len() {
                assert(events[i] == rest.1[i - event_seq(first.1).len()]);
            }
        }
    }
}

/// From a new parser (plain data, nothing collected), after any bytes the
/// kept payload and every reported payload are at most 1023 bytes.
pub proof fn lemma_new_parser_bounded(bytes: Seq<u8>)
    ensures
        parse_bytes(ParserModel { state: TelnetParserState::Data, sb: Seq::empty() }, bytes).0.sb.len() <= sb_limit(),
        payloads_bounded(parse_bytes(ParserModel { state: TelnetParserState::Data, sb: Seq::empty() }, bytes).1),
{
    lemma_parse_bytes_bounded(ParserModel { state: TelnetParserState::Data, sb: Seq::empty() }, bytes);
}

/// The server never agrees to an option it has no stance on: to WILL or
/// WONT such an option it answers WONT (or nothing, when WONT was already
/// its last word on it), and from then on its stance on it is WONT.
pub proof fn lemma_unknown_will_refused(m: NegotiationModel, command: TelnetCommand, option: u8)
    requires
        negotiation_wf(m),
        m.tables.willack[option as int] is None,
        command is Will || command is Wont,
        option != TTYPE,
    ensures
        will_wont_step(m, command, option).1 == (if m.tables.will_set[option as int] == Some(TelnetCommand::Wont) {
            Seq::<u8>::empty()
        } else {
            seq![IAC, 252u8, option]
        }),
        will_wont_step(m, command, option).0.tables.willack[option as int] == Some(TelnetCommand::Wont),
{
}

/// Likewise to DO or DONT an option it has no stance on, the server answers
/// DONT (or nothing, when DONT was already its last word on it).
pub proof fn lemma_unknown_do_refused(m: NegotiationModel, option: u8)
    requires
        negotiation_wf(m),
        m.tables.options[option as int] is None,
    ensures
        do_dont_step(m, option).1 == (if m.tables.do_set[option as int] == Some(TelnetCommand::Dont) {
            Seq::<u8>::empty()
        } else {
            seq![IAC, 254u8, option]
        }),
        do_dont_step(m, option).0.tables.options[option as int] == Some(TelnetCommand::Dont),
{
}

/// Every step of the negotiation keeps the tables well formed: each entry
/// stays empty or one of DO, DONT, WILL, WONT.
pub proof fn lemma_negotiation_keeps_stances(m: NegotiationModel, e: EventModel)
    requires
        negotiation_wf(m),
    ensures
        negotiation_wf(negotiation_step(m, e).0),
{
}

/// The tables are well formed before any negotiation and after the opening
/// announcement.
pub proof fn lemma_initial_stances()
    ensures
        tables_wf(initial_tables()),
        tables_wf(announce(initial_tables(), 256).0),
{
    lemma_announce_keeps_stances(initial_tables(), 256);
}

proof fn lemma_announce_keeps_stances(t: TelnetTables, upto: int)
    requires
        tables_wf(t),
    ensures
        tables_wf(announce(t, upto).0),
    decreases upto,
{
    if upto > 0 {
        lemma_announce_keeps_stances(t, upto - 1);
    }
}

/// A DO or DONT asked again for the same option (DO and DONT get the same
/// answer) is answered with nothing the second time, and the tables stay as
/// the first answer left them.
pub proof fn lemma_repeated_do_dont_sends_nothing(m: NegotiationModel, option: u8)
    requires
        negotiation_wf(m),
    ensures
        ({
            let first = do_dont_step(m, option);
            let second = do_dont_step(first.0, option);
            &&& second.1 == Seq::<u8>::empty()
            &&& second.0 == first.0
        }),
{
    assert(is_stance(m.tables.options[option as int]));
}

/// A WILL or WONT asked again for the same option is answered with nothing
/// the second time (after WILL TTYPE the request for the terminal type is
/// sent again), and the tables stay as the first answer left them.
pub proof fn lemma_repeated_will_wont_sends_nothing(m: NegotiationModel, command: TelnetCommand, option: u8)
    requires
        negotiation_wf(m),
        command is Will || command is Wont,
    ensures
        ({
            let first = will_wont_step(m, command, option);
            let second = will_wont_step(first.0, command, option);
            &&& second.1 == (if command == TelnetCommand::Will && option == TTYPE { ttype_request() } else { Seq::<u8>::empty() })
            &&& second.0 == first.0
        }),
{
    assert(is_stance(m.tables.willack[option as int]));
    let first = will_wont_step(m, command, option);
    let second = will_wont_step(first.0, command, option);
    assert(Seq::<u8>::empty() + ttype_request() =~= ttype_request());
}

/// What the negotiation has learnt matches what it has been told: it
/// knows a terminal type exactly when one was reported, and a window size
/// exactly when one was reported.
pub open spec fn reports_recorded(m: NegotiationModel) -> bool {
    &&& m.got_ttype <==> m.term is Some
    &&& m.got_naws <==> m.size is Some
}

/// Every step of the negotiation keeps what it knows in line with what it
/// was told, from the start on.
pub proof fn lemma_reports_recorded(m: NegotiationModel, e: EventModel)
    requires
        reports_recorded(m),
    ensures
        reports_recorded(initial_negotiation()),
        reports_recorded(negotiation_step(m, e).0),
{
}

/// The negotiation is complete exactly when both a terminal type and a
/// window size are known: a window size alone (the usual first report)
/// does not end it, and it goes on reading for the terminal type.
pub proof fn lemma_complete_iff_both_known(m: NegotiationModel)
    requires
        reports_recorded(m),
    ensures
        negotiation_complete(m) <==> (m.term is Some && m.size is Some),
{
}

/// A session fed any input from its start ends complete only with both the
/// terminal type and the window size learnt.
pub proof fn lemma_session_complete_knows_both(n: NegotiationModel, p: ParserModel, input: Seq<u8>)
    requires
        reports_recorded(n),
    ensures
        reports_recorded(session_run(n, p, input).0),
        negotiation_complete(session_run(n, p, input).0) ==> session_run(n, p, input).0.term is Some
            && session_run(n, p, input).0.size is Some,
    decreases input.len(),
{
    if input.len() > 0 && !negotiation_complete(n) {
        let step = session_step(n, p, input[0]);
        if let Some(e) = parser_step(p, input[0]).1 {
            lemma_reports_recorded(n, e);
        }
        lemma_session_complete_knows_both(step.0, step.1, input.drop_first());
    }
}

/// Once the client has reported both terminal type and window size, the
/// negotiation stays complete whatever else arrives.
pub proof fn lemma_completion_is_stable(n: NegotiationModel, p: ParserModel, byte: u8)
    requires
        negotiation_complete(n),
    ensures
        negotiation_complete(session_step(n, p, byte).0),
{
}

/// The negotiation is complete exactly when both a terminal type and a
/// window size subnegotiation have been recorded.
pub proof fn lemma_complete_after_both_reports(m: NegotiationModel, term: Seq<u8>, naws: Seq<u8>)
    requires
        subnegotiation_of(term) matches Some(SubnegotiationModel::TerminalType(_)),
        subnegotiation_of(naws) matches Some(SubnegotiationModel::WindowSize(_)),
    ensures
        negotiation_complete(subnegotiation_step(subnegotiation_step(m, term).0, naws).0),
        negotiation_complete(subnegotiation_step(subnegotiation_step(m, naws).0, term).0),
{
}

} // verus!
