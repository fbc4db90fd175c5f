//! The decisions of the serial layer: which USB serial ports are XBee
//! adapters, and the AT command dialogue that puts a radio into transparent
//! mode. Opening ports and talking to them is the caller's part.

use vstd::prelude::*;

use crate::transport::{all_ascii_hex, ascii_hex_digit, base16_number};
use crate::text::{chars_equal, copy_range, has_prefix, starts_with_chars, str_chars, trim, trimmed};

verus! {

pub struct TransparentRadioConfig {
    pub packetization_timeout: u8,
    pub xbee_retries: u8,
    pub mac_mode: u8,
    pub channel: u8,
}

pub struct TransparentRadioReport {
    pub mac_mode_applied: bool,
    pub channel_applied: bool,
}

// ---------------------------------------------------------------------------
// AT command dialogue

/// One AT command of the radio set-up: `AT<command><value>\r`.
pub struct AtCommand {
    pub command: [char; 2],
    pub value: Vec<char>,
    /// Whether the radio may answer `ERROR` because it lacks the setting.
    pub may_be_unsupported: bool,
}

/// What the radio answered to an AT command.
#[derive(Debug, Clone, Copy, PartialEq, Eq)]
pub enum AtReply {
    Acknowledged,
    Refused,
    Unexpected,
}

/// An uppercase hexadecimal digit.
pub open spec fn hex_char(d: nat) -> char {
    if d < 10 {
        (('0' as nat) + d) as char
    } else {
        (('A' as nat) + d - 10) as char
    }
}

/// `format!("{:X}", v)`: uppercase hexadecimal without leading zeros.
pub open spec fn hex_upper_text(v: nat) -> Seq<char>
    decreases v,
{
    if v < 16 {
        seq![hex_char(v)]
    } else {
        hex_upper_text(v / 16).push(hex_char(v % 16))
    }
}

fn hex_digit_char(d: u8) -> (r: char)
    requires
        d < 16,
    ensures
        r == hex_char(d as nat),
{
    if d < 10 {
        (48u8 + d) as char
    } else {
        (55u8 + d) as char
    }
}

/// `format!("{:X}", v)`.
pub fn hex_upper(v: u8) -> (r: Vec<char>)
    ensures
        r@ == hex_upper_text(v as nat),
{
    let mut r: Vec<char> = Vec::new();
    if v >= 16 {
        r.push(hex_digit_char(v / 16));
        assert(hex_upper_text((v / 16) as nat) == seq![hex_char((v / 16) as nat)]);
    }
    r.push(hex_digit_char(v % 16));
    assert(r@ =~= hex_upper_text(v as nat));
    r
}

/// The AT commands that configure a radio for transparent mode, in the
/// order they are sent: packetization timeout (`RO`), retries (`RR`), MAC
/// mode (`MM`, may be unsupported), channel (`CH`, may be unsupported) and
/// apply (`AC`). Command mode is left with `CN` whatever happens.
pub open spec fn radio_commands_spec(config: TransparentRadioConfig) -> Seq<(Seq<char>, Seq<char>, bool)> {
    seq![
        (seq!['R', 'O'], hex_upper_text(config.packetization_timeout as nat), false),
        (seq!['R', 'R'], hex_upper_text(config.xbee_retries as nat), false),
        (seq!['M', 'M'], hex_upper_text(config.mac_mode as nat), true),
        (seq!['C', 'H'], hex_upper_text(config.channel as nat), true),
        (seq!['A', 'C'], Seq::<char>::empty(), false),
    ]
}

/// An [`AtCommand`] as plain values.
pub open spec fn at_command_view(c: AtCommand) -> (Seq<char>, Seq<char>, bool) {
    (c.command@, c.value@, c.may_be_unsupported)
}

/// The set-up commands for `config`; see [`radio_commands_spec`].
pub fn transparent_radio_commands(config: &TransparentRadioConfig) -> (r: Vec<AtCommand>)
    ensures
        r@.len() == 5,
        forall|i: int| 0 <= i < 5 ==> at_command_view(#[trigger] r@[i]) == radio_commands_spec(*config)[i],
{
    let mut r: Vec<AtCommand> = Vec::new();
    r.push(AtCommand { command: ['R', 'O'], value: hex_upper(config.packetization_timeout), may_be_unsupported: false });
    r.push(AtCommand { command: ['R', 'R'], value: hex_upper(config.xbee_retries), may_be_unsupported: false });
    r.push(AtCommand { command: ['M', 'M'], value: hex_upper(config.mac_mode), may_be_unsupported: true });
    r.push(AtCommand { command: ['C', 'H'], value: hex_upper(config.channel), may_be_unsupported: true });
    r.push(AtCommand { command: ['A', 'C'], value: Vec::new(), may_be_unsupported: false });
    assert(r@[0].command@ =~= seq!['R', 'O']);
    assert(r@[1].command@ =~= seq!['R', 'R']);
    assert(r@[2].command@ =~= seq!['M', 'M']);
    assert(r@[3].command@ =~= seq!['C', 'H']);
    assert(r@[4].command@ =~= seq!['A', 'C']);
    assert(r@[4].value@ =~= Seq::<char>::empty());
    r
}

/// The reply a response line stands for: `OK` or `ERROR` once trimmed.
pub open spec fn at_reply_of(response: Seq<char>) -> AtReply {
    if trimmed(response) == seq!['O', 'K'] {
        AtReply::Acknowledged
    } else if trimmed(response) == seq!['E', 'R', 'R', 'O', 'R'] {
        AtReply::Refused
    } else {
        AtReply::Unexpected
    }
}

/// Classify the radio's response line to an AT command.
pub fn classify_at_response(response: &str) -> (r: AtReply)
    ensures
        r == at_reply_of(response@),
{
    let chars = str_chars(response);
    let t = trim(chars.as_slice());
    let ok = ['O', 'K'];
    let error = ['E', 'R', 'R', 'O', 'R'];
    assert(ok@ =~= seq!['O', 'K']);
    assert(error@ =~= seq!['E', 'R', 'R', 'O', 'R']);
    if chars_equal(t.as_slice(), &ok) {
        AtReply::Acknowledged
    } else if chars_equal(t.as_slice(), &error) {
        AtReply::Refused
    } else {
        AtReply::Unexpected
    }
}

/// What a reply means for a set-up step: `Ok(true)` applied, `Ok(false)`
/// not supported by this radio (only where allowed), `Err` failure.
pub open spec fn at_step_result(may_be_unsupported: bool, reply: AtReply) -> Result<bool, ()> {
    match reply {
        AtReply::Acknowledged => Ok(true),
        AtReply::Refused => if may_be_unsupported {
            Ok(false)
        } else {
            Err(())
        },
        AtReply::Unexpected => Err(()),
    }
}

/// Judge the reply to one set-up command.
pub fn at_step_outcome(command: &AtCommand, reply: AtReply) -> (r: Result<bool, ()>)
    ensures
        r == at_step_result(command.may_be_unsupported, reply),
{
    match reply {
        AtReply::Acknowledged => Ok(true),
        AtReply::Refused => if command.may_be_unsupported {
            Ok(false)
        } else {
            Err(())
        },
        AtReply::Unexpected => Err(()),
    }
}

// ---------------------------------------------------------------------------
// The set-up dialogue

/// Why putting a radio into transparent mode failed.
#[derive(Debug, Clone, Copy, PartialEq, Eq)]
pub enum RadioSetupError {
    /// The radio did not answer `+++` with `OK`.
    CommandModeRefused,
    /// The set-up command with this index (in the order of
    /// [`transparent_radio_commands`]) was refused.
    CommandFailed(usize),
    /// Leaving command mode (`ATCN`) was refused.
    ExitFailed,
}

/// What to do next in the set-up dialogue.
pub enum RadioSetupAction {
    /// Send `+++` and report the reply.
    EnterCommandMode,
    /// Send the set-up command with this index and report the reply.
    SendCommand(usize),
    /// Send `ATCN` and report the reply.
    ExitCommandMode,
    /// The dialogue is over.
    Done(Result<TransparentRadioReport, RadioSetupError>),
}

/// The replies of a set-up dialogue so far: to `+++`, to each set-up
/// command, and to `ATCN`.
pub struct RadioSetupView {
    pub entered: Option<AtReply>,
    pub replies: Seq<AtReply>,
    pub exit: Option<AtReply>,
}

/// Whether the set-up command at `index` may be refused as unsupported
/// (`MM` and `CH`).
pub open spec fn may_be_unsupported_at(index: int) -> bool {
    index == 2 || index == 3
}

/// Whether the last reply to a set-up command refused it.
pub open spec fn setup_failed(replies: Seq<AtReply>) -> bool {
    replies.len() > 0 && at_step_result(may_be_unsupported_at(replies.len() - 1), replies.last()) is Err
}

/// Whether the set-up commands are over: one failed or all five were answered.
pub open spec fn commands_over(replies: Seq<AtReply>) -> bool {
    setup_failed(replies) || replies.len() >= 5
}

/// The outcome once `ATCN` was answered: the first failure wins.
pub open spec fn setup_result(replies: Seq<AtReply>, exit: AtReply) -> Result<TransparentRadioReport, RadioSetupError> {
    if setup_failed(replies) {
        Err(RadioSetupError::CommandFailed((replies.len() - 1) as usize))
    } else if exit != AtReply::Acknowledged {
        Err(RadioSetupError::ExitFailed)
    } else {
        Ok(TransparentRadioReport {
            mac_mode_applied: replies[2] == AtReply::Acknowledged,
            channel_applied: replies[3] == AtReply::Acknowledged,
        })
    }
}

/// The next step of the dialogue: enter command mode; send the set-up
/// commands in order until one is refused; then leave command mode, which
/// happens whatever the set-up commands answered; then report.
pub open spec fn setup_next(v: RadioSetupView) -> RadioSetupAction {
    match v.entered {
        None => RadioSetupAction::EnterCommandMode,
        Some(e) => if e != AtReply::Acknowledged {
            RadioSetupAction::Done(Err(RadioSetupError::CommandModeRefused))
        } else if !commands_over(v.replies) {
            RadioSetupAction::SendCommand(v.replies.len() as usize)
        } else {
            match v.exit {
                None => RadioSetupAction::ExitCommandMode,
                Some(x) => RadioSetupAction::Done(setup_result(v.replies, x)),
            }
        },
    }
}

/// The dialogue after the reply to what [`setup_next`] asked for.
pub open spec fn setup_on_reply(v: RadioSetupView, reply: AtReply) -> RadioSetupView {
    match setup_next(v) {
        RadioSetupAction::EnterCommandMode => RadioSetupView { entered: Some(reply), ..v },
        RadioSetupAction::SendCommand(_) => RadioSetupView { replies: v.replies.push(reply), ..v },
        RadioSetupAction::ExitCommandMode => RadioSetupView { exit: Some(reply), ..v },
        RadioSetupAction::Done(_) => v,
    }
}

/// A dialogue that only ever followed [`setup_next`].
pub open spec fn setup_reachable(v: RadioSetupView) -> bool {
    &&& v.replies.len() <= 5
    &&& forall|i: int| 0 <= i < v.replies.len() - 1 ==> #[trigger] at_step_result(
        may_be_unsupported_at(i),
        v.replies[i],
    ) is Ok
    &&& v.replies.len() > 0 ==> v.entered == Some(AtReply::Acknowledged)
    &&& v.exit is Some ==> v.entered == Some(AtReply::Acknowledged) && commands_over(v.replies)
}

/// The set-up dialogue that puts a radio into transparent mode. The caller
/// performs each action and reports the radio's reply.
pub struct RadioSetup {
    entered: Option<AtReply>,
    replies: Vec<AtReply>,
    exit: Option<AtReply>,
}

impl View for RadioSetup {
    type V = RadioSetupView;

    closed spec fn view(&self) -> RadioSetupView {
        RadioSetupView { entered: self.entered, replies: self.replies@, exit: self.exit }
    }
}

fn reply_is_ok(reply: AtReply) -> (r: bool)
    ensures
        r == (reply == AtReply::Acknowledged),
{
    match reply {
        AtReply::Acknowledged => true,
        _ => false,
    }
}

fn step_refused(index: usize, reply: AtReply) -> (r: bool)
    ensures
        r == (at_step_result(may_be_unsupported_at(index as int), reply) is Err),
{
    match reply {
        AtReply::Acknowledged => false,
        AtReply::Refused => !(index == 2 || index == 3),
        AtReply::Unexpected => true,
    }
}

impl RadioSetup {
    #[verifier::type_invariant]
    spec fn inv(self) -> bool {
        setup_reachable(self@)
    }

    pub fn new() -> (r: Self)
        ensures
            r@ == (RadioSetupView { entered: None, replies: Seq::empty(), exit: None }),
    {
        RadioSetup { entered: None, replies: Vec::new(), exit: None }
    }

    fn commands_over(&self) -> (r: bool)
        requires
            setup_reachable(self@),
        ensures
            r == commands_over(self@.replies),
    {
        let n = self.replies.len();
        if n >= 5 {
            return true;
        }
        n > 0 && step_refused(n - 1, self.replies[n - 1])
    }

    /// What to do next.
    pub fn next_action(&self) -> (r: RadioSetupAction)
        ensures
            r == setup_next(self@),
    {
        proof {
            use_type_invariant(self);
        }
        match self.entered {
            None => RadioSetupAction::EnterCommandMode,
            Some(e) => if !reply_is_ok(e) {
                RadioSetupAction::Done(Err(RadioSetupError::CommandModeRefused))
            } else if !self.commands_over() {
                RadioSetupAction::SendCommand(self.replies.len())
            } else {
                match self.exit {
                    None => RadioSetupAction::ExitCommandMode,
                    Some(x) => {
                        let n = self.replies.len();
                        if n > 0 && step_refused(n - 1, self.replies[n - 1]) {
                            RadioSetupAction::Done(Err(RadioSetupError::CommandFailed(n - 1)))
                        } else if !reply_is_ok(x) {
                            RadioSetupAction::Done(Err(RadioSetupError::ExitFailed))
                        } else {
                            RadioSetupAction::Done(
                                Ok(
                                    TransparentRadioReport {
                                        mac_mode_applied: reply_is_ok(self.replies[2]),
                                        channel_applied: reply_is_ok(self.replies[3]),
                                    },
                                ),
                            )
                        }
                    },
                }
            },
        }
    }

    /// Record the radio's reply to the action [`Self::next_action`] gave.
    pub fn on_reply(&mut self, reply: AtReply)
        ensures
            final(self)@ == setup_on_reply(old(self)@, reply),
    {
        proof {
            use_type_invariant(&*self);
        }
        match self.entered {
            None => {
                self.entered = Some(reply);
            },
            Some(e) => if !reply_is_ok(e) {
            } else if !self.commands_over() {
                let ghost old_replies = self.replies@;
                let mut replies: Vec<AtReply> = Vec::new();
                std::mem::swap(&mut replies, &mut self.replies);
                replies.push(reply);
                proof {
                    assert(replies@ == old_replies.push(reply));
                    assert forall|i: int| 0 <= i < replies@.len() - 1 implies #[trigger] at_step_result(
                        may_be_unsupported_at(i),
                        replies@[i],
                    ) is Ok by {
                        assert(replies@[i] == old_replies[i]);
                        if i == old_replies.len() - 1 {
                            assert(!setup_failed(old_replies));
                        }
                    }
                }
                self.replies = replies;
            } else if self.exit.is_none() {
                self.exit = Some(reply);
            },
        }
    }
}

/// Command mode, once entered, is always left: the dialogue never reports
/// its outcome before `ATCN` was sent and answered.
pub proof fn lemma_command_mode_always_left(v: RadioSetupView)
    requires
        setup_reachable(v),
        v.entered == Some(AtReply::Acknowledged),
        setup_next(v) is Done,
    ensures
        v.exit is Some,
{
}

/// The dialogue is over after at most seven replies (`+++`, five set-up
/// commands, `ATCN`), whatever the radio answers.
pub proof fn lemma_setup_finishes(v: RadioSetupView, replies: Seq<AtReply>)
    requires
        setup_reachable(v),
        v.entered is None,
        v.replies.len() == 0,
        v.exit is None,
        replies.len() == 7,
    ensures
        setup_next(fold_replies(v, replies)) is Done,
{
    let r = replies;
    let v1 = setup_on_reply(v, r[0]);
    let v2 = setup_on_reply(v1, r[1]);
    let v3 = setup_on_reply(v2, r[2]);
    let v4 = setup_on_reply(v3, r[3]);
    let v5 = setup_on_reply(v4, r[4]);
    let v6 = setup_on_reply(v5, r[5]);
    let v7 = setup_on_reply(v6, r[6]);
    lemma_fold_replies_unfold(v, replies);
    assert(fold_replies(v, replies) == v7);
}

/// The dialogue after the replies `replies`, given in order.
pub open spec fn fold_replies(v: RadioSetupView, replies: Seq<AtReply>) -> RadioSetupView
    decreases replies.len(),
{
    if replies.len() == 0 {
        v
    } else {
        setup_on_reply(fold_replies(v, replies.drop_last()), replies.last())
    }
}

proof fn lemma_fold_replies_unfold(v: RadioSetupView, r: Seq<AtReply>)
    requires
        r.len() == 7,
    ensures
        fold_replies(v, r) == setup_on_reply(
            setup_on_reply(
                setup_on_reply(
                    setup_on_reply(
                        setup_on_reply(setup_on_reply(setup_on_reply(v, r[0]), r[1]), r[2]),
                        r[3],
                    ),
                    r[4],
                ),
                r[5],
            ),
            r[6],
        ),
{
    let f0 = v;
    assert(fold_replies(v, r.take(0)) == f0);
    assert(r.take(1).drop_last() =~= r.take(0));
    let f1 = setup_on_reply(f0, r[0]);
    assert(fold_replies(v, r.take(1)) == f1);
    assert(r.take(2).drop_last() =~= r.take(1));
    let f2 = setup_on_reply(f1, r[1]);
    assert(fold_replies(v, r.take(2)) == f2);
    assert(r.take(3).drop_last() =~= r.take(2));
    let f3 = setup_on_reply(f2, r[2]);
    assert(fold_replies(v, r.take(3)) == f3);
    assert(r.take(4).drop_last() =~= r.take(3));
    let f4 = setup_on_reply(f3, r[3]);
    assert(fold_replies(v, r.take(4)) == f4);
    assert(r.take(5).drop_last() =~= r.take(4));
    let f5 = setup_on_reply(f4, r[4]);
    assert(fold_replies(v, r.take(5)) == f5);
    assert(r.take(6).drop_last() =~= r.take(5));
    let f6 = setup_on_reply(f5, r[5]);
    assert(fold_replies(v, r.take(6)) == f6);
    assert(r.take(7).drop_last() =~= r.take(6));
    assert(r.take(7) =~= r);
}

// ---------------------------------------------------------------------------
// Port discovery

/// A serial port as the operating system lists it.
pub struct PortCandidate {
    pub port_name: String,
    /// USB vendor id, for USB ports.
    pub usb_vid: Option<u16>,
    /// USB serial number, when the adapter reports one.
    pub serial_number: Option<String>,
}

/// A [`PortCandidate`] as plain values.
pub struct PortView {
    pub name: Seq<char>,
    pub vid: Option<u16>,
    pub serial: Option<Seq<char>>,
}

pub open spec fn port_view(p: PortCandidate) -> PortView {
    PortView {
        name: p.port_name@,
        vid: p.usb_vid,
        serial: match p.serial_number {
            Some(s) => Some(s@),
            None => None,
        },
    }
}

/// Common USB-serial adapter vendors: FTDI (0x0403) and Silicon Labs
/// CP210x (0x10C4).
pub open spec fn is_adapter(p: PortView) -> bool {
    p.vid == Some(0x0403u16) || p.vid == Some(0x10C4u16)
}

pub open spec fn cu_prefix() -> Seq<char> {
    seq!['/', 'd', 'e', 'v', '/', 'c', 'u', '.']
}

pub open spec fn tty_prefix() -> Seq<char> {
    seq!['/', 'd', 'e', 'v', '/', 't', 't', 'y', '.']
}

/// The port name without a macOS `/dev/cu.` or `/dev/tty.` prefix, so that
/// both device files of one adapter get the same key.
pub open spec fn port_key_of_name(name: Seq<char>) -> Seq<char> {
    if has_prefix(name, cu_prefix()) {
        name.skip(8)
    } else if has_prefix(name, tty_prefix()) {
        name.skip(9)
    } else {
        name
    }
}

/// The adapter a port belongs to: its USB serial number, else its
/// normalized name.
pub open spec fn adapter_key(p: PortView) -> Seq<char> {
    match p.serial {
        Some(s) => s,
        None => port_key_of_name(p.name),
    }
}

/// Callout devices are preferred on macOS for outbound connections.
pub open spec fn better_port(candidate: Seq<char>, current: Seq<char>) -> bool {
    has_prefix(candidate, cu_prefix()) && !has_prefix(current, cu_prefix())
}

/// The port chosen for each adapter among the first `ports`.
pub open spec fn chosen_ports(ports: Seq<PortView>) -> Map<Seq<char>, Seq<char>>
    decreases ports.len(),
{
    if ports.len() == 0 {
        Map::empty()
    } else {
        let m = chosen_ports(ports.drop_last());
        let p = ports.last();
        if !is_adapter(p) {
            m
        } else {
            let k = adapter_key(p);
            let cur = if m.contains_key(k) {
                m[k]
            } else {
                p.name
            };
            m.insert(
                k,
                if better_port(p.name, cur) {
                    p.name
                } else {
                    cur
                },
            )
        }
    }
}

/// Lexicographic order of character strings (the order of `String`).
pub open spec fn text_lt(a: Seq<char>, b: Seq<char>) -> bool
    decreases a.len(),
{
    if a.len() == 0 {
        b.len() > 0
    } else if b.len() == 0 {
        false
    } else if a[0] != b[0] {
        a[0] < b[0]
    } else {
        text_lt(a.drop_first(), b.drop_first())
    }
}

fn cu_prefix_chars() -> (r: [char; 8])
    ensures
        r@ == cu_prefix(),
{
    let r = ['/', 'd', 'e', 'v', '/', 'c', 'u', '.'];
    assert(r@ =~= cu_prefix());
    r
}

fn tty_prefix_chars() -> (r: [char; 9])
    ensures
        r@ == tty_prefix(),
{
    let r = ['/', 'd', 'e', 'v', '/', 't', 't', 'y', '.'];
    assert(r@ =~= tty_prefix());
    r
}

fn port_key_chars(port_name: &[char]) -> (r: Vec<char>)
    ensures
        r@ == port_key_of_name(port_name@),
{
    if starts_with_chars(port_name, &cu_prefix_chars()) {
        let r = copy_range(port_name, 8, port_name.len());
        assert(r@ =~= port_name@.skip(8));
        return r;
    }
    if starts_with_chars(port_name, &tty_prefix_chars()) {
        let r = copy_range(port_name, 9, port_name.len());
        assert(r@ =~= port_name@.skip(9));
        return r;
    }
    let r = copy_range(port_name, 0, port_name.len());
    assert(r@ =~= port_name@);
    r
}

/// The port name without its macOS `/dev/cu.` or `/dev/tty.` prefix.
pub fn normalize_port_key(port_name: &str) -> (r: Vec<char>)
    ensures
        r@ == port_key_of_name(port_name@),
{
    let chars = str_chars(port_name);
    port_key_chars(chars.as_slice())
}

/// Whether `candidate` should replace `current` as an adapter's port:
/// callout devices are preferred on macOS for outbound connections.
pub fn is_better_port_choice(candidate: &str, current: &str) -> (r: bool)
    ensures
        r == better_port(candidate@, current@),
{
    let cu = cu_prefix_chars();
    let candidate = str_chars(candidate);
    let current = str_chars(current);
    starts_with_chars(candidate.as_slice(), &cu) && !starts_with_chars(current.as_slice(), &cu)
}


// ---------------------------------------------------------------------------
// Ordering of keys

proof fn lemma_text_lt_irreflexive(a: Seq<char>)
    ensures
        !text_lt(a, a),
    decreases a.len(),
{
    if a.len() > 0 {
        lemma_text_lt_irreflexive(a.drop_first());
    }
}

proof fn lemma_text_lt_transitive(a: Seq<char>, b: Seq<char>, c: Seq<char>)
    requires
        text_lt(a, b),
        text_lt(b, c),
    ensures
        text_lt(a, c),
    decreases a.len(),
{
    if a.len() > 0 && b.len() > 0 && c.len() > 0 && a[0] == b[0] && b[0] == c[0] {
        lemma_text_lt_transitive(a.drop_first(), b.drop_first(), c.drop_first());
    }
}

proof fn lemma_text_lt_total(a: Seq<char>, b: Seq<char>)
    requires
        a != b,
    ensures
        text_lt(a, b) || text_lt(b, a),
    decreases a.len(),
{
    if a.len() == 0 && b.len() == 0 {
        assert(a =~= b);
    } else if a.len() > 0 && b.len() > 0 && a[0] == b[0] {
        if a.drop_first() == b.drop_first() {
            assert(a.drop_first().len() == b.drop_first().len());
            assert(a.len() == b.len());
            assert forall|i: int| 0 <= i < a.len() implies a[i] == b[i] by {
                if i > 0 {
                    assert(a[i] == a.drop_first()[i - 1]);
                    assert(b[i] == b.drop_first()[i - 1]);
                }
            }
            assert(a =~= b);
        } else {
            lemma_text_lt_total(a.drop_first(), b.drop_first());
        }
    }
}

/// Compare two character strings in the order of `String`.
fn chars_lt(a: &[char], b: &[char]) -> (r: bool)
    ensures
        r == text_lt(a@, b@),
{
    let mut i: usize = 0;
    assert(a@.skip(0) =~= a@);
    assert(b@.skip(0) =~= b@);
    while i < a.len() && i < b.len()
        invariant
            i <= a@.len(),
            i <= b@.len(),
            text_lt(a@, b@) == text_lt(a@.skip(i as int), b@.skip(i as int)),
        decreases a@.len() - i,
    {
        if a[i] != b[i] {
            assert(a@.skip(i as int)[0] == a@[i as int]);
            assert(b@.skip(i as int)[0] == b@[i as int]);
            return a[i] < b[i];
        }
        assert(a@.skip(i as int).drop_first() =~= a@.skip(i + 1));
        assert(b@.skip(i as int).drop_first() =~= b@.skip(i + 1));
        i += 1;
    }
    i < b.len()
}

// ---------------------------------------------------------------------------
// Selecting one port per adapter

/// Keys in strictly increasing order.
pub open spec fn strictly_sorted(keys: Seq<Seq<char>>) -> bool {
    forall|i: int, j: int| 0 <= i < j < keys.len() ==> text_lt(#[trigger] keys[i], #[trigger] keys[j])
}

/// `names` lists the ports of `chosen`, ordered by their adapter keys.
pub open spec fn lists_chosen_ports(chosen: Map<Seq<char>, Seq<char>>, names: Seq<Seq<char>>) -> bool {
    exists|keys: Seq<Seq<char>>|
        {
            &&& keys.len() == names.len()
            &&& strictly_sorted(keys)
            &&& forall|i: int| 0 <= i < keys.len() ==> #[trigger] chosen.contains_key(keys[i])
                && chosen[keys[i]] == names[i]
            &&& forall|k: Seq<char>| #[trigger] chosen.contains_key(k) ==> keys.contains(k)
        }
}

pub open spec fn port_views(ports: Seq<PortCandidate>) -> Seq<PortView> {
    ports.map_values(|p: PortCandidate| port_view(p))
}

pub open spec fn entry_keys(entries: Seq<(Vec<char>, String)>) -> Seq<Seq<char>> {
    entries.map_values(|e: (Vec<char>, String)| e.0@)
}

spec fn entries_match(entries: Seq<(Vec<char>, String)>, chosen: Map<Seq<char>, Seq<char>>) -> bool {
    &&& strictly_sorted(entry_keys(entries))
    &&& forall|i: int| 0 <= i < entries.len() ==> #[trigger] chosen.contains_key(entries[i].0@)
        && chosen[entries[i].0@] == entries[i].1@
    &&& forall|k: Seq<char>| #[trigger] chosen.contains_key(k) ==> entry_keys(entries).contains(k)
}

fn adapter_key_chars(p: &PortCandidate) -> (r: Vec<char>)
    ensures
        r@ == adapter_key(port_view(*p)),
{
    match &p.serial_number {
        Some(serial) => str_chars(serial.as_str()),
        None => normalize_port_key(p.port_name.as_str()),
    }
}

/// The ports of `ports` that are likely XBee radios, one per USB adapter:
/// ports of FTDI and Silicon Labs adapters, grouped by the adapter's serial
/// number (or, without one, by the port name without its macOS `/dev/cu.` or
/// `/dev/tty.` prefix), preferring the callout device. The names come out
/// ordered by adapter key.
pub fn select_xbee_ports(ports: &[PortCandidate]) -> (r: Vec<String>)
    ensures
        lists_chosen_ports(
            chosen_ports(port_views(ports@)),
            r@.map_values(|s: String| s@),
        ),
{
    let mut entries: Vec<(Vec<char>, String)> = Vec::new();
    let n = ports.len();
    for k in 0..n
        invariant
            n == ports@.len(),
            entries_match(entries@, chosen_ports(port_views(ports@.take(k as int)))),
    {
        let ghost before = chosen_ports(port_views(ports@.take(k as int)));
        assert(port_views(ports@.take(k + 1)).drop_last() =~= port_views(ports@.take(k as int)));
        assert(port_views(ports@.take(k + 1)).last() == port_view(ports@[k as int]));
        let p = &ports[k];
        let adapter = match p.usb_vid {
            Some(vid) => vid == 0x0403u16 || vid == 0x10C4u16,
            None => false,
        };
        if adapter {
            let key = adapter_key_chars(p);
            // First entry whose key is not below `key`.
            let mut i: usize = 0;
            while i < entries.len() && chars_lt(entries[i].0.as_slice(), key.as_slice())
                invariant
                    i <= entries@.len(),
                    forall|j: int| 0 <= j < i ==> text_lt(#[trigger] entries@[j].0@, key@),
                decreases entries@.len() - i,
            {
                i += 1;
            }
            let found = i < entries.len() && chars_equal(entries[i].0.as_slice(), key.as_slice());
            if found {
                let better = is_better_port_choice(p.port_name.as_str(), entries[i].1.as_str());
                if better {
                    let name = p.port_name.clone();
                    let ghost old_entries = entries@;
                    let old_key = entries[i].0.clone();
                    entries.set(i, (old_key, name));
                    assert(entry_keys(entries@) =~= entry_keys(old_entries));
                }
                proof {
                    let after = chosen_ports(port_views(ports@.take(k + 1)));
                    assert(after =~= before.insert(key@, entries@[i as int].1@));
                    assert forall|j: int| 0 <= j < entries@.len() implies #[trigger] after.contains_key(entries@[j].0@)
                        && after[entries@[j].0@] == entries@[j].1@ by {
                        if j != i {
                            assert(entry_keys(entries@)[j] == entries@[j].0@);
                            assert(entry_keys(entries@)[i as int] == entries@[i as int].0@);
                            if j < i {
                                assert(text_lt(entries@[j].0@, entries@[i as int].0@));
                            } else {
                                assert(text_lt(entries@[i as int].0@, entries@[j].0@));
                            }
                            lemma_text_lt_irreflexive(entries@[j].0@);
                        }
                    }
                    assert forall|kk: Seq<char>| #[trigger] after.contains_key(kk) implies entry_keys(entries@).contains(kk) by {
                        if kk == key@ {
                            assert(entry_keys(entries@)[i as int] == kk);
                        }
                    }
                }
            } else {
                let ghost old_entries = entries@;
                proof {
                    assert forall|j: int| 0 <= j < old_entries.len() implies #[trigger] old_entries[j].0@ != key@ by {
                        if j < i {
                            lemma_text_lt_irreflexive(key@);
                        } else {
                            assert(entry_keys(old_entries)[i as int] == old_entries[i as int].0@);
                            assert(entry_keys(old_entries)[j] == old_entries[j].0@);
                            if old_entries[i as int].0@ != key@ {
                                lemma_text_lt_total(old_entries[i as int].0@, key@);
                            }
                            if j > i {
                                lemma_text_lt_transitive(key@, old_entries[i as int].0@, old_entries[j].0@);
                            }
                            lemma_text_lt_irreflexive(key@);
                        }
                    }
                    assert(!before.contains_key(key@)) by {
                        if before.contains_key(key@) {
                            let j = choose|j: int| 0 <= j < entry_keys(old_entries).len() && entry_keys(old_entries)[j] == key@;
                            assert(old_entries[j].0@ == key@);
                        }
                    }
                }
                let name = p.port_name.clone();
                entries.insert(i, (key, name));
                proof {
                    let after = chosen_ports(port_views(ports@.take(k + 1)));
                    assert(after =~= before.insert(key@, name@));
                    let ks = entry_keys(entries@);
                    let oks = entry_keys(old_entries);
                    assert(ks =~= oks.insert(i as int, key@));
                    assert forall|a: int, b: int| 0 <= a < b < ks.len() implies text_lt(#[trigger] ks[a], #[trigger] ks[b]) by {
                        if a < i && b == i {
                            assert(ks[a] == old_entries[a].0@);
                        } else if a == i {
                            assert(ks[b] == oks[b - 1]);
                            if b - 1 > i {
                                assert(text_lt(oks[i as int], oks[b - 1]));
                            }
                            assert(oks[i as int] == old_entries[i as int].0@);
                            if old_entries[i as int].0@ != key@ {
                                lemma_text_lt_total(old_entries[i as int].0@, key@);
                            }
                            if b - 1 > i {
                                lemma_text_lt_transitive(key@, oks[i as int], oks[b - 1]);
                            }
                        } else if a < i && b > i {
                            assert(ks[a] == oks[a]);
                            assert(ks[b] == oks[b - 1]);
                        } else if b < i {
                            assert(ks[a] == oks[a]);
                            assert(ks[b] == oks[b]);
                        } else {
                            assert(ks[a] == oks[a - 1]);
                            assert(ks[b] == oks[b - 1]);
                        }
                    }
                    assert forall|j: int| 0 <= j < entries@.len() implies #[trigger] after.contains_key(entries@[j].0@)
                        && after[entries@[j].0@] == entries@[j].1@ by {
                        if j < i {
                            assert(entries@[j] == old_entries[j]);
                            assert(before.contains_key(old_entries[j].0@));
                            assert(old_entries[j].0@ != key@);
                        } else if j > i {
                            assert(entries@[j] == old_entries[j - 1]);
                            assert(before.contains_key(old_entries[j - 1].0@));
                            assert(old_entries[j - 1].0@ != key@);
                        }
                    }
                    assert forall|kk: Seq<char>| #[trigger] after.contains_key(kk) implies ks.contains(kk) by {
                        if kk == key@ {
                            assert(ks[i as int] == kk);
                        } else {
                            assert(before.contains_key(kk));
                            assert(oks.contains(kk));
                            let j = choose|j: int| 0 <= j < oks.len() && oks[j] == kk;
                            if j < i {
                                assert(ks[j] == kk);
                            } else {
                                assert(ks[j + 1] == kk);
                            }
                        }
                    }
                }
            }
        } else {
            proof {
                assert(chosen_ports(port_views(ports@.take(k + 1))) =~= before);
            }
        }
    }
    assert(ports@.take(n as int) =~= ports@);
    let mut names: Vec<String> = Vec::new();
    for j in 0..entries.len()
        invariant
            names@.len() == j,
            forall|t: int| 0 <= t < j ==> #[trigger] names@[t]@ == entries@[t].1@,
    {
        names.push(entries[j].1.clone());
    }
    proof {
        let chosen = chosen_ports(port_views(ports@));
        let keys = entry_keys(entries@);
        let out = names@.map_values(|s: String| s@);
        assert(entries_match(entries@, chosen));
        assert forall|t: int| 0 <= t < keys.len() implies #[trigger] chosen.contains_key(keys[t])
            && chosen[keys[t]] == out[t] by {
            assert(keys[t] == entries@[t].0@);
            assert(chosen.contains_key(entries@[t].0@));
            assert(out[t] == names@[t]@);
        }
    }
    names
}

/// Once a callout device (`/dev/cu.`) of an adapter is seen, it is the port
/// chosen for that adapter, whatever order the ports come in.
pub proof fn lemma_callout_device_preferred(ports: Seq<PortView>, i: int)
    requires
        0 <= i < ports.len(),
        is_adapter(ports[i]),
        has_prefix(ports[i].name, cu_prefix()),
    ensures
        chosen_ports(ports).contains_key(adapter_key(ports[i])),
        has_prefix(chosen_ports(ports)[adapter_key(ports[i])], cu_prefix()),
    decreases ports.len(),
{
    if i < ports.len() - 1 {
        lemma_callout_device_preferred(ports.drop_last(), i);
    }
}

/// Every adapter port is represented, and only adapter ports are.
pub proof fn lemma_chosen_keys(ports: Seq<PortView>, k: Seq<char>)
    ensures
        chosen_ports(ports).contains_key(k) <==> exists|i: int|
            0 <= i < ports.len() && is_adapter(#[trigger] ports[i]) && adapter_key(ports[i]) == k,
        chosen_ports(ports).contains_key(k) ==> exists|i: int|
            0 <= i < ports.len() && is_adapter(#[trigger] ports[i]) && adapter_key(ports[i]) == k
                && ports[i].name == chosen_ports(ports)[k],
    decreases ports.len(),
{
    if ports.len() > 0 {
        let rest = ports.drop_last();
        lemma_chosen_keys(rest, k);
        if chosen_ports(rest).contains_key(k) {
            let j = choose|j: int| 0 <= j < rest.len() && is_adapter(#[trigger] rest[j]) && adapter_key(rest[j]) == k
                && rest[j].name == chosen_ports(rest)[k];
            assert(ports[j] == rest[j]);
        }
        assert forall|j: int| 0 <= j < rest.len() implies #[trigger] ports[j] == rest[j] by {}
        let last = ports.len() - 1;
        assert(ports[last] == ports.last());
    }
}

/// The dialogue tolerates a refused set-up command exactly where the
/// command list marks the setting as possibly unsupported (`MM`, `CH`):
/// such a refusal is recorded and the set-up goes on; any other refusal
/// ends the set-up commands.
pub proof fn lemma_refusal_tolerated_where_marked(config: TransparentRadioConfig, v: RadioSetupView)
    requires
        setup_reachable(v),
        v.entered == Some(AtReply::Acknowledged),
        !commands_over(v.replies),
    ensures
        setup_on_reply(v, AtReply::Refused).replies == v.replies.push(AtReply::Refused),
        setup_failed(setup_on_reply(v, AtReply::Refused).replies) <==> !radio_commands_spec(
            config,
        )[v.replies.len() as int].2,
        radio_commands_spec(config)[v.replies.len() as int].2 && v.replies.len() < 4 ==> setup_next(
            setup_on_reply(v, AtReply::Refused),
        ) == RadioSetupAction::SendCommand((v.replies.len() + 1) as usize),
{
}

/// The set-up command at each index may be refused as unsupported exactly
/// when the command list says so.
pub proof fn lemma_unsupported_marks_agree(config: TransparentRadioConfig, i: int)
    requires
        0 <= i < 5,
    ensures
        may_be_unsupported_at(i) == radio_commands_spec(config)[i].2,
{
}

proof fn lemma_hex_char_reads_back(d: nat)
    requires
        d < 16,
    ensures
        ascii_hex_digit(hex_char(d)) == Some(d),
        !(0x61 <= hex_char(d) as u32 && hex_char(d) as u32 <= 0x66),
{
}

/// An AT command value is the number written in base 16 with uppercase
/// digits and without leading zeros: reading the text back in base 16
/// gives the number, it uses no lowercase letter, and it has one digit
/// exactly for numbers below 16 (two otherwise, the first not `0`).
pub proof fn lemma_at_value_text(v: u8)
    ensures
        all_ascii_hex(hex_upper_text(v as nat)),
        base16_number(hex_upper_text(v as nat)) == v as nat,
        forall|i: int|
            0 <= i < hex_upper_text(v as nat).len() ==> !(0x61 <= #[trigger] hex_upper_text(
                v as nat,
            )[i] as u32 && hex_upper_text(v as nat)[i] as u32 <= 0x66),
        hex_upper_text(v as nat).len() == (if v < 16 {
            1nat
        } else {
            2nat
        }),
        v >= 16 ==> hex_upper_text(v as nat)[0] != '0',
{
    let t = hex_upper_text(v as nat);
    if v < 16 {
        lemma_hex_char_reads_back(v as nat);
        assert(t == seq![hex_char(v as nat)]);
        assert(t.drop_last() =~= Seq::<char>::empty());
        assert(base16_number(Seq::<char>::empty()) == 0);
        assert(base16_number(t) == base16_number(t.drop_last()) * 16 + ascii_hex_digit(t.last())->0);
    } else {
        let hi = (v / 16) as nat;
        let lo = (v % 16) as nat;
        lemma_hex_char_reads_back(hi);
        lemma_hex_char_reads_back(lo);
        assert(hex_upper_text(hi) == seq![hex_char(hi)]);
        assert(t == seq![hex_char(hi)].push(hex_char(lo)));
        assert(t.drop_last() =~= seq![hex_char(hi)]);
        assert(seq![hex_char(hi)].drop_last() =~= Seq::<char>::empty());
        let h1 = seq![hex_char(hi)];
        assert(base16_number(Seq::<char>::empty()) == 0);
        assert(base16_number(h1) == base16_number(h1.drop_last()) * 16 + ascii_hex_digit(h1.last())->0);
        assert(base16_number(h1) == hi);
        assert(base16_number(t) == base16_number(t.drop_last()) * 16 + ascii_hex_digit(t.last())->0);
        assert(t.last() == hex_char(lo));
        assert(v as nat == hi * 16 + lo);
    }
}

} // verus!
