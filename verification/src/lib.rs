use vstd::prelude::*;

pub mod communication;
pub mod db;
pub mod db_connexion;
pub mod instances;
pub mod listener;
pub mod raft;
pub mod watchdog;

verus! {

/// The three ports on which one instance listens: its database, its client
/// endpoint and its Raft peer.
#[derive(Clone, Copy, Debug, PartialEq, Eq, Structural)]
pub struct InstancePorts {
    pub db: u32,
    pub endpoint: u32,
    pub raft: u32,
}

/// The database's listening port on the first instance.
pub const DEFAULT_DB_PORT: u32 = 8888;

/// The client endpoint's listening port on the first instance.
pub const DEFAULT_ENDPOINT_PORT: u32 = 42069;

/// The Raft peer's listening port on the first instance.
pub const DEFAULT_RAFT_PORT: u32 = 9000;

impl InstancePorts {
    /// Whether every port can be shifted by `number` without leaving the
    /// range of ports.
    pub open spec fn can_add(self, number: u32) -> bool {
        &&& self.db + number <= u32::MAX
        &&& self.endpoint + number <= u32::MAX
        &&& self.raft + number <= u32::MAX
    }

    /// Every port shifted by `number`.
    pub open spec fn plus(self, number: u32) -> InstancePorts {
        InstancePorts {
            db: (self.db + number) as u32,
            endpoint: (self.endpoint + number) as u32,
            raft: (self.raft + number) as u32,
        }
    }

    /// The ports of the first instance.
    pub fn new() -> (ports: Self)
        ensures
            ports.db == DEFAULT_DB_PORT,
            ports.endpoint == DEFAULT_ENDPOINT_PORT,
            ports.raft == DEFAULT_RAFT_PORT,
    {
        InstancePorts { db: DEFAULT_DB_PORT, endpoint: DEFAULT_ENDPOINT_PORT, raft: DEFAULT_RAFT_PORT }
    }

    /// Every port shifted by `number`.
    pub fn add(self, number: u32) -> (ports: Self)
        requires
            self.can_add(number),
        ensures
            ports == self.plus(number),
            ports.db == self.db + number,
            ports.endpoint == self.endpoint + number,
            ports.raft == self.raft + number,
    {
        InstancePorts {
            db: self.db + number,
            endpoint: self.endpoint + number,
            raft: self.raft + number,
        }
    }
}

/// Shifting the ports twice is shifting them once by the sum.
pub proof fn law_add_composes(ports: InstancePorts, first: u32, second: u32)
    requires
        ports.can_add(first),
        ports.plus(first).can_add(second),
        first + second <= u32::MAX,
    ensures
        ports.can_add((first + second) as u32),
        ports.plus(first).plus(second) == ports.plus((first + second) as u32),
{
}

/// The byte that ends a line.
pub const NEWLINE: u8 = 10;

/// The byte that a line reader drops before a final newline.
pub const CARRIAGE_RETURN: u8 = 13;

/// Index just past the last newline byte of `s`, or 0 when `s` holds none:
/// where the last (possibly unterminated) line of `s` starts.
pub open spec fn line_start(s: Seq<u8>) -> int
    decreases s.len(),
{
    if s.len() == 0 {
        0
    } else if s.last() == NEWLINE {
        s.len() as int
    } else {
        line_start(s.drop_last())
    }
}

/// The last line that a line reader yields from `bytes`, without its
/// terminator: a line ends at a newline, which is dropped together with one
/// carriage return before it; bytes after the last newline form a final line
/// of their own. `None` when `bytes` holds no line at all.
pub open spec fn last_line(bytes: Seq<u8>) -> Option<Seq<u8>> {
    if bytes.len() == 0 {
        None
    } else if bytes.last() == NEWLINE {
        let body = bytes.drop_last();
        let line = body.subrange(line_start(body), body.len() as int);
        if line.len() > 0 && line.last() == CARRIAGE_RETURN {
            Some(line.drop_last())
        } else {
            Some(line)
        }
    } else {
        Some(bytes.subrange(line_start(bytes), bytes.len() as int))
    }
}

/// What a peer's message amounts to once received: of all the lines that
/// arrived, only the last one is kept, followed by a newline; nothing when no
/// line arrived.
pub open spec fn received_message(bytes: Seq<u8>) -> Seq<u8> {
    match last_line(bytes) {
        Some(line) => line.push(NEWLINE),
        None => Seq::empty(),
    }
}

proof fn lemma_line_start(s: Seq<u8>, start: int)
    requires
        0 <= start <= s.len(),
        start == 0 || s[start - 1] == NEWLINE,
        forall|i: int| start <= i < s.len() ==> s[i] != NEWLINE,
    ensures
        line_start(s) == start,
    decreases s.len(),
{
    if s.len() > 0 && s.len() != start {
        lemma_line_start(s.drop_last(), start);
    }
}

/// Turns the bytes that arrived on a connection into the message they carry
/// (see `received_message`).
pub fn message_from_bytes(bytes: &Vec<u8>) -> (message: Vec<u8>)
    ensures
        message@ == received_message(bytes@),
{
    let n = bytes.len();
    if n == 0 {
        return Vec::new();
    }
    let terminated = bytes[n - 1] == NEWLINE;
    let body_end: usize = if terminated { n - 1 } else { n };
    let mut start: usize = body_end;
    while start > 0
        invariant
            start <= body_end <= n == bytes@.len(),
            forall|i: int| start <= i < body_end ==> bytes@[i] != NEWLINE,
        ensures
            start <= body_end,
            start == 0 || bytes@[start - 1] == NEWLINE,
            forall|i: int| start <= i < body_end ==> bytes@[i] != NEWLINE,
        decreases start,
    {
        if bytes[start - 1] == NEWLINE {
            break;
        }
        start = start - 1;
    }
    let ghost body = bytes@.subrange(0, body_end as int);
    proof {
        lemma_line_start(body, start as int);
        if terminated {
            assert(body =~= bytes@.drop_last());
        } else {
            assert(body =~= bytes@);
        }
    }
    let mut end: usize = body_end;
    if terminated && start < end && bytes[end - 1] == CARRIAGE_RETURN {
        end = end - 1;
    }
    let mut message: Vec<u8> = Vec::new();
    let mut i: usize = start;
    while i < end
        invariant
            start <= i <= end <= body_end <= n == bytes@.len(),
            message@ =~= bytes@.subrange(start as int, i as int),
        decreases end - i,
    {
        message.push(bytes[i]);
        i = i + 1;
    }
    message.push(NEWLINE);
    proof {
        let line = body.subrange(start as int, body_end as int);
        if terminated && line.len() > 0 && line.last() == CARRIAGE_RETURN {
            assert(line.drop_last() =~= bytes@.subrange(start as int, end as int));
        }
    }
    message
}

/// A message written as one line, with no newline inside, is received as
/// that line followed by a newline, whether or not the sender ended it with a
/// newline (in the latter case as long as the line does not end with a
/// carriage return).
pub proof fn law_single_line_is_received_whole(line: Seq<u8>)
    requires
        line.len() > 0,
        !line.contains(NEWLINE),
    ensures
        received_message(line) == line.push(NEWLINE),
        line.last() != CARRIAGE_RETURN ==> received_message(line.push(NEWLINE)) == line.push(NEWLINE),
{
    assert forall|i: int| 0 <= i < line.len() implies line[i] != NEWLINE by {
        if line[i] == NEWLINE {
            assert(line.contains(NEWLINE));
        }
    }
    lemma_line_start(line, 0);
    assert(line.subrange(0, line.len() as int) =~= line);
    assert(line.push(NEWLINE).drop_last() =~= line);
}

proof fn lemma_line_start_bounds(s: Seq<u8>)
    ensures
        0 <= line_start(s) <= s.len(),
    decreases s.len(),
{
    if s.len() > 0 {
        lemma_line_start_bounds(s.drop_last());
    }
}

proof fn lemma_line_start_after_newline(first: Seq<u8>, rest: Seq<u8>)
    requires
        first.len() > 0,
        first.last() == NEWLINE,
    ensures
        line_start(first + rest) == first.len() + line_start(rest),
    decreases rest.len(),
{
    if rest.len() == 0 {
        assert(first + rest =~= first);
    } else {
        assert((first + rest).drop_last() =~= first + rest.drop_last());
        lemma_line_start_after_newline(first, rest.drop_last());
    }
}

/// Lines that a later line follows are not part of the message: what arrives
/// after a newline is received as if it had arrived alone.
pub proof fn law_only_last_line_counts(first: Seq<u8>, rest: Seq<u8>)
    requires
        rest.len() > 0,
    ensures
        received_message(first.push(NEWLINE) + rest) == received_message(rest),
{
    let head = first.push(NEWLINE);
    let whole = head + rest;
    assert(whole.last() == rest.last());
    if rest.last() == NEWLINE {
        assert(whole.drop_last() =~= head + rest.drop_last());
        lemma_line_start_after_newline(head, rest.drop_last());
        lemma_line_start_bounds(rest.drop_last());
        let body = whole.drop_last();
        assert(body.subrange(line_start(body), body.len() as int) =~= rest.drop_last().subrange(
            line_start(rest.drop_last()),
            rest.drop_last().len() as int,
        ));
    } else {
        lemma_line_start_after_newline(head, rest);
        lemma_line_start_bounds(rest);
        assert(whole.subrange(line_start(whole), whole.len() as int) =~= rest.subrange(
            line_start(rest),
            rest.len() as int,
        ));
    }
}

/// A line ended by a carriage return and a newline is received without the
/// carriage return.
pub proof fn law_carriage_return_dropped(line: Seq<u8>)
    requires
        !line.contains(NEWLINE),
    ensures
        received_message(line.push(CARRIAGE_RETURN).push(NEWLINE)) == line.push(NEWLINE),
{
    let body = line.push(CARRIAGE_RETURN);
    assert forall|i: int| 0 <= i < body.len() implies body[i] != NEWLINE by {
        if i < line.len() && line[i] == NEWLINE {
            assert(line.contains(NEWLINE));
        }
    }
    lemma_line_start(body, 0);
    assert(line.push(CARRIAGE_RETURN).push(NEWLINE).drop_last() =~= body);
    assert(body.subrange(0, body.len() as int) =~= body);
    assert(body.drop_last() =~= line);
}

/// The decimal digit `d` as a character.
pub open spec fn digit_char(d: nat) -> char {
    (48 + d) as char
}

/// The decimal notation of `n`, most significant digit first, without
/// leading zeros.
pub open spec fn decimal(n: nat) -> Seq<char>
    decreases n,
{
    if n < 10 {
        seq![digit_char(n)]
    } else {
        decimal(n / 10).push(digit_char(n % 10))
    }
}

/// The number that a string of decimal digits denotes.
pub open spec fn decimal_value(s: Seq<char>) -> int
    decreases s.len(),
{
    if s.len() == 0 {
        0
    } else {
        decimal_value(s.drop_last()) * 10 + (s.last() as int - 48)
    }
}

/// Whether every character of `s` is a decimal digit.
pub open spec fn all_digits(s: Seq<char>) -> bool {
    forall|i: int| 0 <= i < s.len() ==> 48 <= #[trigger] (s[i] as int) <= 57
}

/// The address on which an instance listens for a port: every interface.
pub open spec fn listen_address_of(port: u32) -> Seq<char> {
    "0.0.0.0:"@ + decimal(port as nat)
}

fn append_digit(s: &mut String, d: u32)
    requires
        d < 10,
    ensures
        final(s)@ == old(s)@.push(digit_char(d as nat)),
{
    proof {
        reveal_strlit("0");
        reveal_strlit("1");
        reveal_strlit("2");
        reveal_strlit("3");
        reveal_strlit("4");
        reveal_strlit("5");
        reveal_strlit("6");
        reveal_strlit("7");
        reveal_strlit("8");
        reveal_strlit("9");
    }
    let digit = match d {
        0 => "0",
        1 => "1",
        2 => "2",
        3 => "3",
        4 => "4",
        5 => "5",
        6 => "6",
        7 => "7",
        8 => "8",
        _ => "9",
    };
    s.append(digit);
    assert(final(s)@ =~= old(s)@.push(digit_char(d as nat)));
}

fn append_decimal(s: &mut String, n: u32)
    ensures
        final(s)@ == old(s)@ + decimal(n as nat),
    decreases n,
{
    if n >= 10 {
        append_decimal(s, n / 10);
    }
    append_digit(s, n % 10);
    assert(final(s)@ =~= old(s)@ + decimal(n as nat));
}

/// The decimal notation of `n`.
pub fn decimal_string(n: u32) -> (s: String)
    ensures
        s@ == decimal(n as nat),
{
    let mut s = String::new();
    append_decimal(&mut s, n);
    assert(s@ =~= decimal(n as nat));
    s
}

/// The address, on every interface, of the given port.
pub fn listen_address(port: u32) -> (addr: String)
    ensures
        addr@ == listen_address_of(port),
{
    let mut addr = String::from_str("0.0.0.0:");
    append_decimal(&mut addr, port);
    addr
}

/// The decimal notation of a number consists of digits, starts with a zero
/// only for zero itself, and denotes that number.
pub proof fn law_decimal_round_trip(n: nat)
    ensures
        all_digits(decimal(n)),
        decimal(n).len() > 0,
        decimal(n)[0] == '0' ==> n == 0,
        decimal_value(decimal(n)) == n,
    decreases n,
{
    if n >= 10 {
        law_decimal_round_trip(n / 10);
        let s = decimal(n);
        assert(s.drop_last() =~= decimal(n / 10));
        assert(s[0] == decimal(n / 10)[0]);
        assert(n == (n / 10) * 10 + n % 10);
        assert(s.last() as int == 48 + n % 10);
        assert(decimal_value(s) == decimal_value(s.drop_last()) * 10 + (s.last() as int - 48));
        assert(decimal_value(s) == (n / 10) * 10 + n % 10);
    } else {
        let s = decimal(n);
        assert(s.drop_last() =~= Seq::<char>::empty());
        assert(decimal_value(s.drop_last()) == 0);
        assert(s.last() as int == 48 + n);
        assert(decimal_value(s) == decimal_value(s.drop_last()) * 10 + (s.last() as int - 48));
    }
}

} // verus!
