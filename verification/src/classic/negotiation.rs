use vstd::prelude::*;
use crate::telnet::{
    announce, be16, command_of_byte, decode_lossy, do_dont_step, initial_negotiation, initial_tables,
    decoded_text, option_string, slice_from, tables_wf, will_wont_step, NegotiationModel, NegotiationStep,
    TelnetCommand, TelnetNegotiation, TelnetOption, TelnetTables, IAC, NAWS, TTYPE,
};

verus! {

/// What the negotiation reads next: plain data, the command after IAC, or
/// the option of a WILL/WONT or DO/DONT.
#[derive(Clone, Copy, Debug, PartialEq, Eq, Structural)]
pub enum Pending {
    Data,
    Command,
    WillWont(TelnetCommand),
    DoDont,
}

/// What the client reported: its terminal type and its window size as
/// given, zero included.
#[derive(Debug, PartialEq, Eq)]
pub struct TelnetInfo {
    pub term: Option<String>,
    pub width: Option<i32>,
    pub height: Option<i32>,
}

/// The negotiation as a value.
pub struct ClassicModel {
    pub tables: TelnetTables,
    pub pending: Pending,
    pub sb_mode: bool,
    pub sb: Seq<u8>,
    pub term: Option<Seq<char>>,
    pub width: Option<i32>,
    pub height: Option<i32>,
    pub got_ttype: bool,
    pub got_naws: bool,
}

/// The state after the opening announcement.
pub open spec fn classic_start() -> ClassicModel {
    ClassicModel {
        tables: announce(initial_tables(), 256).0,
        pending: Pending::Data,
        sb_mode: false,
        sb: Seq::empty(),
        term: None,
        width: None,
        height: None,
        got_ttype: false,
        got_naws: false,
    }
}

/// The negotiation ends once the terminal type and the window size have
/// both been reported, or the client sent IAC IAC.
pub open spec fn classic_complete(m: ClassicModel) -> bool {
    m.got_ttype && m.got_naws
}

/// At most this many subnegotiation bytes are kept.
pub open spec fn payload_limit() -> nat {
    1023
}

pub open spec fn tables_model(t: TelnetTables) -> NegotiationModel {
    NegotiationModel { tables: t, ..initial_negotiation() }
}

/// IAC SE: the subnegotiation collected so far is read as `TTYPE IS name`
/// (the IS byte is not checked) or `NAWS w1 w0 h1 h0`; either is recorded
/// and reported as news. The payload is kept.
pub open spec fn se_step(m: ClassicModel) -> (ClassicModel, bool) {
    let m1 = ClassicModel { sb_mode: false, ..m };
    if m.sb.len() >= 2 && m.sb[0] == TTYPE {
        (ClassicModel { term: Some(decoded_text(m.sb.subrange(2, m.sb.len() as int))), got_ttype: true, ..m1 }, true)
    } else if m.sb.len() >= 5 && m.sb[0] == NAWS {
        (
            ClassicModel {
                width: Some(be16(m.sb, 1) as i32),
                height: Some(be16(m.sb, 3) as i32),
                got_naws: true,
                ..m1
            },
            true,
        )
    } else {
        (m1, false)
    }
}

/// One byte from the client: the new state, the bytes to send back, and
/// whether news arrived (which extends the wait). NOP is answered with
/// NOP; WILL/WONT and DO/DONT are answered from the tables as in the
/// negotiation of the telnet module; SB starts a fresh payload; IAC IAC
/// ends the negotiation.
pub open spec fn classic_step(m: ClassicModel, byte: u8) -> (ClassicModel, Seq<u8>, bool) {
    match m.pending {
        Pending::Data => {
            if byte == IAC {
                (ClassicModel { pending: Pending::Command, ..m }, Seq::empty(), false)
            } else if m.sb_mode && m.sb.len() < payload_limit() {
                (ClassicModel { sb: m.sb.push(byte), ..m }, Seq::empty(), false)
            } else {
                (m, Seq::empty(), false)
            }
        },
        Pending::Command => {
            let m0 = ClassicModel { pending: Pending::Data, ..m };
            match command_of_byte(byte) {
                TelnetCommand::Se => {
                    let r = se_step(m0);
                    (r.0, Seq::empty(), r.1)
                },
                TelnetCommand::Nop => (m0, seq![IAC, 241u8], false),
                TelnetCommand::Will => (ClassicModel { pending: Pending::WillWont(TelnetCommand::Will), ..m }, Seq::empty(), false),
                TelnetCommand::Wont => (ClassicModel { pending: Pending::WillWont(TelnetCommand::Wont), ..m }, Seq::empty(), false),
                TelnetCommand::Do | TelnetCommand::Dont => (ClassicModel { pending: Pending::DoDont, ..m }, Seq::empty(), false),
                TelnetCommand::Sb => (ClassicModel { sb_mode: true, sb: Seq::empty(), ..m0 }, Seq::empty(), false),
                TelnetCommand::Iac => (ClassicModel { got_ttype: true, got_naws: true, ..m0 }, Seq::empty(), false),
                _ => (m0, Seq::empty(), false),
            }
        },
        Pending::WillWont(command) => {
            let r = will_wont_step(tables_model(m.tables), command, byte);
            (ClassicModel { tables: r.0.tables, pending: Pending::Data, ..m }, r.1, false)
        },
        Pending::DoDont => {
            let r = do_dont_step(tables_model(m.tables), byte);
            (ClassicModel { tables: r.0.tables, pending: Pending::Data, ..m }, r.1, false)
        },
    }
}

/// Feeds `input` until it runs out or the negotiation is complete: the
/// final state and everything sent back on the way.
pub open spec fn classic_run(m: ClassicModel, input: Seq<u8>) -> (ClassicModel, Seq<u8>)
    decreases input.len(),
{
    if input.len() == 0 || classic_complete(m) {
        (m, Seq::empty())
    } else {
        let step = classic_step(m, input[0]);
        let rest = classic_run(step.0, input.drop_first());
        (rest.0, step.1 + rest.1)
    }
}

/// The server side of the negotiation, fed one client byte at a time.
pub struct ClassicNegotiation {
    negotiation: TelnetNegotiation,
    pending: Pending,
    sb_mode: bool,
    sb: Vec<u8>,
    term: Option<String>,
    width: Option<i32>,
    height: Option<i32>,
    got_ttype: bool,
    got_naws: bool,
}

impl ClassicNegotiation {
    pub closed spec fn model(self) -> ClassicModel {
        ClassicModel {
            tables: self.negotiation.model().tables,
            pending: self.pending,
            sb_mode: self.sb_mode,
            sb: self.sb@,
            term: option_string(self.term),
            width: self.width,
            height: self.height,
            got_ttype: self.got_ttype,
            got_naws: self.got_naws,
        }
    }

    pub open spec fn wf(self) -> bool {
        tables_wf(self.model().tables)
    }

    /// A new negotiation and the announcement to send first: for each
    /// option in order, the server's stance and then its request.
    pub fn new() -> (r: (Self, Vec<u8>))
        ensures
            r.0.wf(),
            r.0.model() == classic_start(),
            r.1@ == announce(initial_tables(), 256).1,
    {
        let mut negotiation = TelnetNegotiation::new();
        let output = negotiation.initial_output();
        let r = ClassicNegotiation {
            negotiation,
            pending: Pending::Data,
            sb_mode: false,
            sb: Vec::new(),
            term: None,
            width: None,
            height: None,
            got_ttype: false,
            got_naws: false,
        };
        assert(r.model().sb =~= Seq::<u8>::empty());
        (r, output)
    }

    pub fn is_complete(&self) -> (r: bool)
        ensures
            r == classic_complete(self.model()),
    {
        self.got_ttype && self.got_naws
    }

    pub fn into_info(self) -> (r: TelnetInfo)
        ensures
            option_string(r.term) == self.model().term,
            r.width == self.model().width,
            r.height == self.model().height,
    {
        TelnetInfo { term: self.term, width: self.width, height: self.height }
    }

    /// IAC SE: reads the payload collected so far.
    fn end_subnegotiation(&mut self) -> (news: bool)
        ensures
            final(self).negotiation == old(self).negotiation,
            (final(self).model(), news) == se_step(old(self).model()),
    {
        self.sb_mode = false;
        let n = self.sb.len();
        if n >= 2 && self.sb[0] == TTYPE {
            let name = slice_from(self.sb.as_slice(), 2);
            self.term = Some(decode_lossy(name.as_slice()));
            self.got_ttype = true;
            true
        } else if n >= 5 && self.sb[0] == NAWS {
            self.width = Some(self.sb[1] as i32 * 256 + self.sb[2] as i32);
            self.height = Some(self.sb[3] as i32 * 256 + self.sb[4] as i32);
            self.got_naws = true;
            true
        } else {
            false
        }
    }

    /// Feeds one client byte; returns what to send back and whether news
    /// arrived.
    pub fn feed(&mut self, byte: u8) -> (r: NegotiationStep)
        requires
            old(self).wf(),
        ensures
            final(self).wf(),
            (final(self).model(), r.output@, r.extend_deadline) == classic_step(old(self).model(), byte),
    {
        let mut step = NegotiationStep::default();
        match self.pending {
            Pending::Data => {
                if byte == IAC {
                    self.pending = Pending::Command;
                } else if self.sb_mode && self.sb.len() < 1023 {
                    self.sb.push(byte);
                }
            },
            Pending::Command => {
                self.pending = Pending::Data;
                match TelnetCommand::from_byte(byte) {
                    TelnetCommand::Se => {
                        step.extend_deadline = self.end_subnegotiation();
                    },
                    TelnetCommand::Nop => {
                        step.output.push(IAC);
                        step.output.push(241);
                    },
                    TelnetCommand::Will => {
                        self.pending = Pending::WillWont(TelnetCommand::Will);
                    },
                    TelnetCommand::Wont => {
                        self.pending = Pending::WillWont(TelnetCommand::Wont);
                    },
                    TelnetCommand::Do | TelnetCommand::Dont => {
                        self.pending = Pending::DoDont;
                    },
                    TelnetCommand::Sb => {
                        self.sb_mode = true;
                        self.sb.clear();
                    },
                    TelnetCommand::Iac => {
                        self.got_ttype = true;
                        self.got_naws = true;
                    },
                    _ => {},
                }
            },
            Pending::WillWont(command) => {
                self.pending = Pending::Data;
                self.negotiation.handle_will_wont(command, TelnetOption::new(byte), &mut step.output);
            },
            Pending::DoDont => {
                self.pending = Pending::Data;
                self.negotiation.handle_do_dont(TelnetOption::new(byte), &mut step.output);
            },
        }
        proof {
            assert(self.model().sb =~= classic_step(old(self).model(), byte).0.sb);
            assert(step.output@ =~= classic_step(old(self).model(), byte).1);
        }
        step
    }
}

/// Runs the negotiation over the client bytes `input`, all known in
/// advance (their end stands for the client falling silent): sends the
/// announcement, then feeds bytes until the negotiation is complete or the
/// input ends. Everything sent goes to `out`; returns what was learnt.
pub fn negotiate_telnet(out: &mut Vec<u8>, input: &[u8]) -> (r: TelnetInfo)
    ensures
        ({
            let run = classic_run(classic_start(), input@);
            &&& final(out)@ == old(out)@ + announce(initial_tables(), 256).1 + run.1
            &&& option_string(r.term) == run.0.term
            &&& r.width == run.0.width
            &&& r.height == run.0.height
        }),
{
    let (mut session, announcement) = ClassicNegotiation::new();
    out.extend_from_slice(announcement.as_slice());
    let ghost base = old(out)@ + announcement@;
    assert(out@ =~= base);
    let n = input.len();
    let mut i: usize = 0;
    assert(input@.subrange(0, n as int) =~= input@);
    while i < n && !session.is_complete()
        invariant
            n == input@.len(),
            i <= n,
            session.wf(),
            ({
                let whole = classic_run(classic_start(), input@);
                let rest = classic_run(session.model(), input@.subrange(i as int, n as int));
                &&& whole.0 == rest.0
                &&& out@ + rest.1 == base + whole.1
            }),
        decreases n - i,
    {
        let ghost before = session.model();
        let step = session.feed(input[i]);
        out.extend_from_slice(step.output.as_slice());
        proof {
            let rest_before = input@.subrange(i as int, n as int);
            assert(rest_before.drop_first() =~= input@.subrange(i + 1, n as int));
            assert(rest_before[0] == input@[i as int]);
            let rest_after = classic_run(session.model(), input@.subrange(i + 1, n as int));
            assert(classic_run(before, rest_before).1 == step.output@ + rest_after.1);
            assert(out@ + rest_after.1 =~= (out@.subrange(0, out@.len() - step.output@.len()) + step.output@) + rest_after.1);
        }
        i = i + 1;
    }
    proof {
        let rest = classic_run(session.model(), input@.subrange(i as int, n as int));
        assert(rest.1 =~= Seq::<u8>::empty());
        assert(out@ =~= out@ + rest.1);
    }
    session.into_info()
}

/// IAC IAC, read as data, ends the negotiation: whatever comes after it is
/// not looked at and nothing more is sent.
pub proof fn lemma_iac_iac_ends_negotiation(m: ClassicModel, rest: Seq<u8>)
    requires
        m.pending == Pending::Data,
    ensures
        ({
            let first = classic_step(m, IAC);
            let second = classic_step(first.0, IAC);
            &&& classic_complete(second.0)
            &&& first.1 + second.1 == Seq::<u8>::empty()
            &&& classic_run(second.0, rest) == (second.0, Seq::<u8>::empty())
        }),
{
    let first = classic_step(m, IAC);
    let second = classic_step(first.0, IAC);
    assert(first.1 + second.1 =~= Seq::<u8>::empty());
}

/// IAC NOP is answered with IAC NOP and changes nothing else.
pub proof fn lemma_nop_is_answered(m: ClassicModel)
    requires
        m.pending == Pending::Data,
    ensures
        ({
            let first = classic_step(m, IAC);
            let second = classic_step(first.0, 241u8);
            &&& first.1 + second.1 == seq![IAC, 241u8]
            &&& second.0 == m
            &&& !first.2 && !second.2
        }),
{
    let first = classic_step(m, IAC);
    let second = classic_step(first.0, 241u8);
    assert(first.1 + second.1 =~= seq![IAC, 241u8]);
}

/// A subnegotiation `IAC SB payload IAC SE` with a payload free of IAC and
/// short enough to be kept whole is read as if the payload were given
/// directly.
pub proof fn lemma_framed_payload_is_read(m: ClassicModel, payload: Seq<u8>)
    requires
        m.pending == Pending::Data,
        payload.len() <= payload_limit(),
        forall|i: int| 0 <= i < payload.len() ==> payload[i] != IAC,
    ensures
        ({
            let opened = classic_step(classic_step(m, IAC).0, 250u8).0;
            let filled = classic_feed_all(opened, payload);
            let closed = classic_step(classic_step(filled, IAC).0, 240u8);
            &&& filled == (ClassicModel { sb_mode: true, sb: payload, ..m })
            &&& closed == (se_step(filled).0, Seq::<u8>::empty(), se_step(filled).1)
        }),
{
    let opened = classic_step(classic_step(m, IAC).0, 250u8).0;
    lemma_feed_payload(opened, payload);
}

/// Every byte of `bytes` fed in turn, regardless of completion.
pub open spec fn classic_feed_all(m: ClassicModel, bytes: Seq<u8>) -> ClassicModel
    decreases bytes.len(),
{
    if bytes.len() == 0 {
        m
    } else {
        classic_feed_all(classic_step(m, bytes[0]).0, bytes.drop_first())
    }
}

proof fn lemma_feed_payload(m: ClassicModel, payload: Seq<u8>)
    requires
        m.pending == Pending::Data,
        m.sb_mode,
        m.sb.len() + payload.len() <= payload_limit(),
        forall|i: int| 0 <= i < payload.len() ==> payload[i] != IAC,
    ensures
        classic_feed_all(m, payload) == (ClassicModel { sb: m.sb + payload, ..m }),
    decreases payload.len(),
{
    if payload.len() == 0 {
        assert(m.sb + payload =~= m.sb);
    } else {
        let next = classic_step(m, payload[0]).0;
        assert forall|i: int| 0 <= i < payload.drop_first().len() implies payload.drop_first()[i] != IAC by {
            assert(payload.drop_first()[i] == payload[i + 1]);
        }
        lemma_feed_payload(next, payload.drop_first());
        assert(next.sb + payload.drop_first() =~= m.sb + payload);
    }
}

} // verus!
