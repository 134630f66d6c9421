//! The server core: the dimensions it owns, the run and compression
//! flags, and validation of the pre-parsed console command records that
//! reach the server side.

use vstd::prelude::*;

use crate::dimension::Dimension;
use vstd::utf8::encode_utf8;

verus! {

/// Where a console command executes.
#[derive(Clone, Copy, PartialEq, Eq, Structural, Debug)]
pub enum CommandEnvironment {
    Client,
    Server,
    Main,
}

/// The commands recognised on the server side.
#[derive(Clone, Copy, PartialEq, Eq, Structural, Debug)]
pub enum ServerCommandId {
    StopServer,
    SwitchCompressionState,
    Dimensions,
    ResetDimension,
    TestChunkSpeed,
}

/// A validated server command, arguments resolved.
#[derive(Debug)]
pub enum ServerCommand {
    StopServer,
    SwitchCompressionState,
    Dimensions,
    ResetDimension { name: String, seed: Option<i32> },
    TestChunkSpeed { name: String, limit: u32 },
}

/// Why a command record was rejected; each is reported as a single
/// message on the command sink and mutates nothing.
#[derive(Clone, Copy, PartialEq, Eq, Structural, Debug)]
pub enum CommandError {
    NotEnoughArguments,
    WrongType,
    DimensionNotFound,
}

/// An ASCII decimal digit.
pub open spec fn is_ascii_digit(b: u8) -> bool {
    48 <= b <= 57
}

/// Every byte is an ASCII decimal digit.
pub open spec fn all_digits(bs: Seq<u8>) -> bool {
    forall|i: int| 0 <= i < bs.len() ==> is_ascii_digit(#[trigger] bs[i])
}

/// The number denoted by a digit string, most significant digit first.
pub open spec fn digits_value(bs: Seq<u8>) -> int
    decreases bs.len(),
{
    if bs.len() == 0 {
        0
    } else {
        digits_value(bs.drop_last()) * 10 + (bs.last() - 48)
    }
}

/// A digit string's value is never negative.
proof fn lemma_digits_nonneg(bs: Seq<u8>)
    requires
        all_digits(bs),
    ensures
        digits_value(bs) >= 0,
    decreases bs.len(),
{
    if bs.len() > 0 {
        assert(all_digits(bs.drop_last()));
        lemma_digits_nonneg(bs.drop_last());
        assert(digits_value(bs.drop_last()) * 10 >= 0) by (nonlinear_arith)
            requires
                digits_value(bs.drop_last()) >= 0,
        ;
    }
}

/// Extending a digit string never shrinks its value.
proof fn lemma_digits_prefix_le(bs: Seq<u8>, k: int)
    requires
        all_digits(bs),
        0 <= k <= bs.len(),
    ensures
        digits_value(bs.take(k)) <= digits_value(bs),
    decreases bs.len() - k,
{
    if k < bs.len() {
        lemma_digits_prefix_le(bs, k + 1);
        let p = bs.take(k);
        let q = bs.take(k + 1);
        assert(q.drop_last() =~= p);
        assert(all_digits(p));
        lemma_digits_nonneg(p);
        assert(digits_value(p) * 10 + (q.last() - 48) >= digits_value(p)) by (nonlinear_arith)
            requires
                digits_value(p) >= 0,
                q.last() - 48 >= 0,
        ;
    } else {
        assert(bs.take(k) =~= bs);
    }
}

/// The unsigned number a byte string denotes: at least one digit, all
/// digits, value inside the 32-bit range.
pub open spec fn parse_u32_bytes_spec(bs: Seq<u8>) -> Option<u32> {
    if bs.len() >= 1 && all_digits(bs) && digits_value(bs) <= u32::MAX {
        Some(digits_value(bs) as u32)
    } else {
        None
    }
}

/// Parses an unsigned 32-bit decimal number.
pub fn parse_u32(s: &str) -> (r: Option<u32>)
    ensures
        r == parse_u32_bytes_spec(encode_utf8(s@)),
{
    let bytes = s.as_bytes();
    let n = bytes.len();
    if n == 0 {
        return None;
    }
    let ghost bs = bytes@;
    let mut acc: u64 = 0;
    let mut i: usize = 0;
    while i < n
        invariant
            bs == bytes@,
            bytes@ == encode_utf8(s@),
            n == bs.len(),
            i <= n,
            all_digits(bs.take(i as int)),
            acc == digits_value(bs.take(i as int)),
            acc <= u32::MAX,
        decreases n - i,
    {
        let b = bytes[i];
        if b < 48 || b > 57 {
            proof {
                assert(!is_ascii_digit(bs[i as int]));
            }
            return None;
        }
        let next: u64 = acc * 10 + ((b - 48) as u64);
        proof {
            assert(bs.take(i + 1).drop_last() =~= bs.take(i as int));
        }
        if next > u32::MAX as u64 {
            proof {
                if all_digits(bs) {
                    lemma_digits_prefix_le(bs, i + 1);
                }
            }
            return None;
        }
        acc = next;
        i = i + 1;
    }
    proof {
        assert(bs.take(n as int) =~= bs);
    }
    Some(acc as u32)
}

/// The signed number a byte string denotes: an optional sign, then at
/// least one digit, value inside the 32-bit range.
pub open spec fn parse_i32_bytes_spec(bs: Seq<u8>) -> Option<i32> {
    if bs.len() >= 1 && bs[0] == 45 {
        let rest = bs.subrange(1, bs.len() as int);
        if rest.len() >= 1 && all_digits(rest) && digits_value(rest) <= 0x8000_0000 {
            Some((-digits_value(rest)) as i32)
        } else {
            None
        }
    } else if bs.len() >= 1 && bs[0] == 43 {
        let rest = bs.subrange(1, bs.len() as int);
        if rest.len() >= 1 && all_digits(rest) && digits_value(rest) <= 0x7FFF_FFFF {
            Some(digits_value(rest) as i32)
        } else {
            None
        }
    } else if bs.len() >= 1 && all_digits(bs) && digits_value(bs) <= 0x7FFF_FFFF {
        Some(digits_value(bs) as i32)
    } else {
        None
    }
}

/// Parses a signed 32-bit decimal number with an optional sign.
pub fn parse_i32(s: &str) -> (r: Option<i32>)
    ensures
        r == parse_i32_bytes_spec(encode_utf8(s@)),
{
    let bytes = s.as_bytes();
    let n = bytes.len();
    if n == 0 {
        return None;
    }
    let ghost bs = bytes@;
    let first = bytes[0];
    let negative = first == 45;
    let signed = negative || first == 43;
    let start: usize = if signed {
        1
    } else {
        0
    };
    if n == start {
        return None;
    }
    let limit: u64 = if negative {
        0x8000_0000
    } else {
        0x7FFF_FFFF
    };
    let ghost digits = if signed {
        bs.subrange(1, bs.len() as int)
    } else {
        bs
    };
    let mut acc: u64 = 0;
    let mut i: usize = start;
    while i < n
        invariant
            bs == bytes@,
            bytes@ == encode_utf8(s@),
            n == bs.len(),
            start <= i <= n,
            start < n,
            start == if signed {
                1int
            } else {
                0int
            },
            negative ==> bs[0] == 45,
            signed && !negative ==> bs[0] == 43,
            !signed ==> bs[0] != 45 && bs[0] != 43,
            limit == if negative {
                0x8000_0000u64
            } else {
                0x7FFF_FFFFu64
            },
            digits == if signed {
                bs.subrange(1, bs.len() as int)
            } else {
                bs
            },
            all_digits(digits.take(i - start)),
            acc == digits_value(digits.take(i - start)),
            acc <= limit,
        decreases n - i,
    {
        let b = bytes[i];
        if b < 48 || b > 57 {
            proof {
                assert(!is_ascii_digit(digits[i - start]));
            }
            return None;
        }
        let next: u64 = acc * 10 + ((b - 48) as u64);
        proof {
            assert(digits.take(i - start + 1).drop_last() =~= digits.take(i - start));
            assert(digits[i - start] == bs[i as int]);
        }
        if next > limit {
            proof {
                if all_digits(digits) {
                    lemma_digits_prefix_le(digits, i - start + 1);
                }
            }
            return None;
        }
        acc = next;
        i = i + 1;
    }
    proof {
        assert(digits.take(n - start) =~= digits);
    }
    if negative {
        if acc == 0x8000_0000 {
            Some(i32::MIN)
        } else {
            Some(-((acc as u32) as i32))
        }
    } else {
        Some(acc as i32)
    }
}

/// The server core: its dimensions, the run flag, and whether outgoing
/// packets are compressed.
#[derive(Debug)]
pub struct Server {
    pub dimensions: Vec<Dimension>,
    pub running: bool,
    pub compress_sent_data: bool,
}

impl Server {
    /// No two dimensions share a name.
    pub open spec fn wf(self) -> bool {
        forall|i: int, j: int|
            0 <= i < j < self.dimensions@.len() ==> (#[trigger] self.dimensions@[i]).name@ != (
            #[trigger] self.dimensions@[j]).name@
    }

    /// A dimension with the given name is loaded.
    pub open spec fn has_dimension(self, name: Seq<char>) -> bool {
        exists|i: int|
            0 <= i < self.dimensions@.len() && (#[trigger] self.dimensions@[i]).name@ == name
    }

    /// A running server with no dimensions and compression enabled.
    pub fn new() -> (r: Server)
        ensures
            r.wf(),
            r.dimensions@.len() == 0,
            r.running,
            r.compress_sent_data,
    {
        Server { dimensions: Vec::new(), running: true, compress_sent_data: true }
    }

    /// Stops the server: the run flag falls, nothing else changes.
    pub fn stop(&mut self)
        ensures
            !final(self).running,
            final(self).dimensions == old(self).dimensions,
            final(self).compress_sent_data == old(self).compress_sent_data,
    {
        self.running = false;
    }

    pub fn is_running(&self) -> (r: bool)
        ensures
            r == self.running,
    {
        self.running
    }

    /// Toggles whether outgoing packets are compressed.
    pub fn switch_compression_state(&mut self)
        ensures
            final(self).compress_sent_data == !old(self).compress_sent_data,
            final(self).dimensions == old(self).dimensions,
            final(self).running == old(self).running,
    {
        self.compress_sent_data = !self.compress_sent_data;
    }

    /// The index of the dimension with the given name, if one is loaded.
    pub fn find_dimension(&self, name: &String) -> (r: Option<usize>)
        ensures
            r matches Some(i) ==> i < self.dimensions@.len() && self.dimensions@[i as int].name@
                == name@,
            r is None ==> !self.has_dimension(name@),
    {
        let mut i: usize = 0;
        while i < self.dimensions.len()
            invariant
                i <= self.dimensions@.len(),
                forall|j: int| 0 <= j < i ==> (#[trigger] self.dimensions@[j]).name@ != name@,
            decreases self.dimensions@.len() - i,
        {
            if self.dimensions[i].name == *name {
                return Some(i);
            }
            i = i + 1;
        }
        None
    }

    /// Appends a dimension under a fresh name.
    pub fn add_dimension(&mut self, dimension: Dimension)
        requires
            old(self).wf(),
            !old(self).has_dimension(dimension.name@),
        ensures
            final(self).wf(),
            final(self).dimensions@ == old(self).dimensions@.push(dimension),
            final(self).running == old(self).running,
            final(self).compress_sent_data == old(self).compress_sent_data,
    {
        self.dimensions.push(dimension);
        proof {
            assert forall|i: int, j: int|
                0 <= i < j < self.dimensions@.len() implies (
            #[trigger] self.dimensions@[i]).name@ != (#[trigger] self.dimensions@[j]).name@ by {
                if j == self.dimensions@.len() - 1 {
                    assert(old(self).dimensions@[i].name@ != dimension.name@);
                }
            }
        }
    }

    /// Removes the dimension at an index.
    pub fn remove_dimension(&mut self, index: usize) -> (r: Dimension)
        requires
            old(self).wf(),
            index < old(self).dimensions@.len(),
        ensures
            final(self).wf(),
            final(self).dimensions@ == old(self).dimensions@.remove(index as int),
            r == old(self).dimensions@[index as int],
            final(self).running == old(self).running,
            final(self).compress_sent_data == old(self).compress_sent_data,
    {
        let d = self.dimensions.remove(index);
        proof {
            assert forall|i: int, j: int|
                0 <= i < j < self.dimensions@.len() implies (
            #[trigger] self.dimensions@[i]).name@ != (#[trigger] self.dimensions@[j]).name@ by {
                let oi = if i < index {
                    i
                } else {
                    i + 1
                };
                let oj = if j < index {
                    j
                } else {
                    j + 1
                };
                assert(self.dimensions@[i] == old(self).dimensions@[oi]);
                assert(self.dimensions@[j] == old(self).dimensions@[oj]);
            }
        }
        d
    }

    /// Validates one pre-parsed command record against the server state:
    /// checks the arity, resolves numeric arguments and the named
    /// dimension, and reports the first failure.
    pub fn validate_server_command(&self, command_id: ServerCommandId, args: &Vec<String>) -> (r:
        Result<ServerCommand, CommandError>)
        ensures
            command_id == ServerCommandId::StopServer ==> (r matches Ok(c) && c is StopServer),
            command_id == ServerCommandId::SwitchCompressionState ==> (r matches Ok(c) && c
                is SwitchCompressionState),
            command_id == ServerCommandId::Dimensions ==> (r matches Ok(c) && c is Dimensions),
            command_id == ServerCommandId::ResetDimension ==> {
                if args@.len() == 0 {
                    r == Result::<ServerCommand, CommandError>::Err(CommandError::NotEnoughArguments)
                } else if !self.has_dimension(args@[0]@) {
                    r == Result::<ServerCommand, CommandError>::Err(CommandError::DimensionNotFound)
                } else if args@.len() >= 2 && parse_i32_bytes_spec(encode_utf8(args@[1]@)) is None {
                    r == Result::<ServerCommand, CommandError>::Err(CommandError::WrongType)
                } else {
                    (r matches Ok(c) && (c matches ServerCommand::ResetDimension { name, seed }
                        && name@ == args@[0]@ && seed == (if args@.len() >= 2 {
                        parse_i32_bytes_spec(encode_utf8(args@[1]@))
                    } else {
                        None
                    })))
                }
            },
            command_id == ServerCommandId::TestChunkSpeed ==> {
                if args@.len() == 0 {
                    r == Result::<ServerCommand, CommandError>::Err(CommandError::NotEnoughArguments)
                } else if !self.has_dimension(args@[0]@) {
                    r == Result::<ServerCommand, CommandError>::Err(CommandError::DimensionNotFound)
                } else if args@.len() >= 2 && parse_u32_bytes_spec(encode_utf8(args@[1]@)) is None {
                    r == Result::<ServerCommand, CommandError>::Err(CommandError::WrongType)
                } else {
                    (r matches Ok(c) && (c matches ServerCommand::TestChunkSpeed { name, limit }
                        && name@ == args@[0]@ && limit == (if args@.len() >= 2 {
                        parse_u32_bytes_spec(encode_utf8(args@[1]@)).unwrap()
                    } else {
                        10000u32
                    })))
                }
            },
    {
        match command_id {
            ServerCommandId::StopServer => Ok(ServerCommand::StopServer),
            ServerCommandId::SwitchCompressionState => Ok(ServerCommand::SwitchCompressionState),
            ServerCommandId::Dimensions => Ok(ServerCommand::Dimensions),
            ServerCommandId::ResetDimension => {
                if args.len() == 0 {
                    return Err(CommandError::NotEnoughArguments);
                }
                let name = &args[0];
                if self.find_dimension(name).is_none() {
                    return Err(CommandError::DimensionNotFound);
                }
                let seed: Option<i32> = if args.len() >= 2 {
                    match parse_i32(args[1].as_str()) {
                        Some(v) => Some(v),
                        None => {
                            return Err(CommandError::WrongType);
                        },
                    }
                } else {
                    None
                };
                Ok(ServerCommand::ResetDimension { name: name.clone(), seed })
            },
            ServerCommandId::TestChunkSpeed => {
                if args.len() == 0 {
                    return Err(CommandError::NotEnoughArguments);
                }
                let name = &args[0];
                if self.find_dimension(name).is_none() {
                    return Err(CommandError::DimensionNotFound);
                }
                let limit: u32 = if args.len() >= 2 {
                    match parse_u32(args[1].as_str()) {
                        Some(v) => v,
                        None => {
                            return Err(CommandError::WrongType);
                        },
                    }
                } else {
                    10000
                };
                Ok(ServerCommand::TestChunkSpeed { name: name.clone(), limit })
            },
        }
    }
}

} // verus!
