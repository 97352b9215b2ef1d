//! The `version` payload, with which a node introduces itself.
use vstd::prelude::*;
use vstd::bytes::*;
use crate::codec::wire::{CodecError, outcome, ends_within, spec_u64_le, spec_i64_le, spec_i32_le, spec_i32_to_le_bytes, spec_i64_to_le_bytes, read_u8, read_u64_le, read_i64_le, read_i32_le, put_u64_le, put_i64_le, put_i32_le, lemma_i32_round_trip, lemma_i64_round_trip};
use crate::codec::commons::net_addr::{NetAddr, NetAddrView, lemma_net_addr_round_trip};
use crate::codec::commons::var_str::{VarStr, VarStrView, lemma_var_str_round_trip};

verus! {

/// The oldest protocol version that this node accepts.
pub const MIN_VERSION: i32 = 60_002;

/// The oldest protocol version whose `version` payload ends with the relay
/// flag.
pub const RELAY_VERSION: i32 = 70_002;

#[derive(Debug, Clone)]
pub struct Version {
    pub version: i32,
    pub services: u64,
    pub timestamp: i64,
    pub addr_recv: NetAddr,
    pub addr_trans: NetAddr,
    pub nonce: u64,
    pub user_agent: VarStr,
    pub start_height: i32,
    pub relay: Option<bool>,
}

pub struct VersionView {
    pub version: i32,
    pub services: u64,
    pub timestamp: i64,
    pub addr_recv: NetAddrView,
    pub addr_trans: NetAddrView,
    pub nonce: u64,
    pub user_agent: VarStrView,
    pub start_height: i32,
    pub relay: Option<bool>,
}

impl View for Version {
    type V = VersionView;

    open spec fn view(&self) -> VersionView {
        VersionView {
            version: self.version,
            services: self.services,
            timestamp: self.timestamp,
            addr_recv: self.addr_recv@,
            addr_trans: self.addr_trans@,
            nonce: self.nonce,
            user_agent: self.user_agent@,
            start_height: self.start_height,
            relay: self.relay,
        }
    }
}

/// The byte that stands for the relay flag, if it is written.
pub open spec fn spec_relay_bytes(relay: Option<bool>) -> Seq<u8> {
    match relay {
        Some(r) => seq![if r { 1u8 } else { 0u8 }],
        None => Seq::empty(),
    }
}

impl VersionView {
    pub open spec fn spec_bytes(self) -> Seq<u8> {
        spec_i32_to_le_bytes(self.version) + spec_u64_to_le_bytes(self.services)
            + spec_i64_to_le_bytes(self.timestamp) + self.addr_recv.spec_bytes()
            + self.addr_trans.spec_bytes() + spec_u64_to_le_bytes(self.nonce)
            + self.user_agent.spec_bytes() + spec_i32_to_le_bytes(self.start_height)
            + spec_relay_bytes(self.relay)
    }

    /// A supported version, a relay flag present exactly from the version that
    /// carries it, 16-byte addresses, and a user agent that round-trips.
    pub open spec fn round_trips(self) -> bool {
        &&& self.version >= MIN_VERSION
        &&& (self.relay is None <==> self.version < RELAY_VERSION)
        &&& self.addr_recv.round_trips()
        &&& self.addr_trans.round_trips()
        &&& self.user_agent.round_trips()
    }
}

impl Version {
    pub open spec fn spec_parse(s: Seq<u8>) -> Result<(VersionView, nat), CodecError> {
        match spec_i32_le(s) {
            Err(e) => Err(e),
            Ok((version, _)) => if version < MIN_VERSION {
                Err(CodecError::UnsupportedVersion)
            } else {
                match spec_u64_le(s.skip(4)) {
                    Err(e) => Err(e),
                    Ok((services, _)) => match spec_i64_le(s.skip(12)) {
                        Err(e) => Err(e),
                        Ok((timestamp, _)) => match NetAddr::spec_parse(s.skip(20)) {
                            Err(e) => Err(e),
                            Ok((addr_recv, n1)) => {
                                let p1: int = 20int + n1;
                                match NetAddr::spec_parse(s.skip(p1)) {
                                    Err(e) => Err(e),
                                    Ok((addr_trans, n2)) => {
                                        let p2: int = p1 + n2;
                                        match spec_u64_le(s.skip(p2)) {
                                            Err(e) => Err(e),
                                            Ok((nonce, _)) => {
                                                let p3: int = p2 + 8;
                                                match VarStr::spec_parse(s.skip(p3)) {
                                                    Err(e) => Err(e),
                                                    Ok((user_agent, n4)) => {
                                                        let p4: int = p3 + n4;
                                                        match spec_i32_le(s.skip(p4)) {
                                                            Err(e) => Err(e),
                                                            Ok((start_height, _)) => {
                                                                let p5: int = p4 + 4;
                                                                Version::spec_finish(
                                                                    s,
                                                                    p5,
                                                                    VersionView {
                                                                        version,
                                                                        services,
                                                                        timestamp,
                                                                        addr_recv,
                                                                        addr_trans,
                                                                        nonce,
                                                                        user_agent,
                                                                        start_height,
                                                                        relay: None,
                                                                    },
                                                                )
                                                            },
                                                        }
                                                    },
                                                }
                                            },
                                        }
                                    },
                                }
                            },
                        },
                    },
                }
            },
        }
    }

    /// The relay flag, read at `p` from the version that carries it on.
    pub open spec fn spec_finish(s: Seq<u8>, p: int, v: VersionView) -> Result<
        (VersionView, nat),
        CodecError,
    > {
        if v.version < RELAY_VERSION {
            Ok((v, p as nat))
        } else if s.len() <= p {
            Err(CodecError::UnexpectedEnd)
        } else {
            Ok((VersionView { relay: Some(s[p] != 0), ..v }, (p + 1) as nat))
        }
    }

    pub fn new(bytes: &[u8], pos: usize) -> (r: Result<(Version, usize), CodecError>)
        requires
            pos <= bytes@.len(),
        ensures
            outcome(r, pos) == Version::spec_parse(bytes@.skip(pos as int)),
            ends_within(r, pos, bytes@.len()),
    {
        let ghost s = bytes@.skip(pos as int);
        let (version, p) = read_i32_le(bytes, pos)?;
        if version < MIN_VERSION {
            return Err(CodecError::UnsupportedVersion);
        }
        assert(bytes@.skip(p as int) =~= s.skip(4));
        let (services, p) = read_u64_le(bytes, p)?;
        assert(bytes@.skip(p as int) =~= s.skip(12));
        let (timestamp, p) = read_i64_le(bytes, p)?;
        assert(bytes@.skip(p as int) =~= s.skip(20));
        let (addr_recv, p) = NetAddr::new(bytes, p)?;
        assert(bytes@.skip(p as int) =~= s.skip((p - pos) as int));
        let (addr_trans, p) = NetAddr::new(bytes, p)?;
        assert(bytes@.skip(p as int) =~= s.skip((p - pos) as int));
        let (nonce, p) = read_u64_le(bytes, p)?;
        assert(bytes@.skip(p as int) =~= s.skip((p - pos) as int));
        let (user_agent, p) = VarStr::new(bytes, p)?;
        assert(bytes@.skip(p as int) =~= s.skip((p - pos) as int));
        let (start_height, p) = read_i32_le(bytes, p)?;
        let (relay, p) = if version < RELAY_VERSION {
            (None, p)
        } else {
            let (b, p) = read_u8(bytes, p)?;
            (Some(b != 0), p)
        };
        Ok(
            (
                Version {
                    version,
                    services,
                    timestamp,
                    addr_recv,
                    addr_trans,
                    nonce,
                    user_agent,
                    start_height,
                    relay,
                },
                p,
            ),
        )
    }

    pub fn into_bytes(&self) -> (r: Result<Vec<u8>, CodecError>)
        ensures
            r matches Ok(v) && v@ == self@.spec_bytes(),
    {
        let mut wtr: Vec<u8> = Vec::new();
        self.write_to(&mut wtr);
        assert(wtr@ =~= self@.spec_bytes());
        Ok(wtr)
    }

    pub fn write_to(&self, out: &mut Vec<u8>)
        ensures
            final(out)@ == old(out)@ + self@.spec_bytes(),
    {
        put_i32_le(out, self.version);
        put_u64_le(out, self.services);
        put_i64_le(out, self.timestamp);
        self.addr_recv.write_to(out);
        self.addr_trans.write_to(out);
        put_u64_le(out, self.nonce);
        self.user_agent.write_to(out);
        put_i32_le(out, self.start_height);
        match self.relay {
            Some(r) => {
                out.push(if r {
                    1u8
                } else {
                    0u8
                });
            },
            None => {},
        }
        assert(out@ =~= old(out)@ + self@.spec_bytes());
    }
}

/// Reading back a written `version` payload that round-trips gives it back
/// and consumes exactly the written bytes, whatever follows them.
#[verifier::spinoff_prover]
#[verifier::rlimit(50)]
pub proof fn lemma_version_round_trip(v: VersionView, rest: Seq<u8>)
    requires
        v.round_trips(),
    ensures
        Version::spec_parse(v.spec_bytes() + rest) == Ok::<(VersionView, nat), CodecError>(
            (v, v.spec_bytes().len()),
        ),
{
    lemma_auto_spec_u64_to_from_le_bytes();
    lemma_i32_round_trip(v.version);
    lemma_i32_round_trip(v.start_height);
    lemma_i64_round_trip(v.timestamp);
    assert(spec_u64_to_le_bytes(v.services).len() == 8);
    assert(spec_u64_to_le_bytes(v.nonce).len() == 8);
    let a = spec_i32_to_le_bytes(v.version);
    let b = spec_u64_to_le_bytes(v.services);
    let c = spec_i64_to_le_bytes(v.timestamp);
    let d = v.addr_recv.spec_bytes();
    let e = v.addr_trans.spec_bytes();
    let f = spec_u64_to_le_bytes(v.nonce);
    let g = v.user_agent.spec_bytes();
    let h = spec_i32_to_le_bytes(v.start_height);
    let r = spec_relay_bytes(v.relay);
    let s = v.spec_bytes() + rest;
    assert(s =~= a + (b + (c + (d + (e + (f + (g + (h + (r + rest)))))))));
    assert(s.take(4) =~= a);
    assert(s.skip(4).take(8) =~= b);
    assert(s.skip(12).take(8) =~= c);
    assert(s.skip(20) =~= d + (e + (f + (g + (h + (r + rest))))));
    lemma_net_addr_round_trip(v.addr_recv, e + (f + (g + (h + (r + rest)))));
    let p1: int = 20int + d.len();
    assert(s.skip(p1) =~= e + (f + (g + (h + (r + rest)))));
    lemma_net_addr_round_trip(v.addr_trans, f + (g + (h + (r + rest))));
    let p2: int = p1 + e.len();
    assert(s.skip(p2).take(8) =~= f);
    let p3: int = p2 + 8;
    assert(s.skip(p3) =~= g + (h + (r + rest)));
    lemma_var_str_round_trip(v.user_agent, h + (r + rest));
    let p4: int = p3 + g.len();
    assert(s.skip(p4).take(4) =~= h);
    let p5: int = p4 + 4;
    let w = VersionView { relay: None, ..v };
    if v.version < RELAY_VERSION {
        assert(r =~= Seq::<u8>::empty());
        assert(w == v);
    } else {
        assert(s[p5] == r[0]);
        assert(VersionView { relay: Some(s[p5] != 0), ..w } == v);
    }
}

/// A `version` payload from the version that carries the relay flag on,
/// cut just before that flag, does not decode: its end comes too early.
#[verifier::spinoff_prover]
#[verifier::rlimit(50)]
pub proof fn lemma_version_without_relay_refused(v: VersionView)
    requires
        v.round_trips(),
        v.version >= RELAY_VERSION,
    ensures
        Version::spec_parse(v.spec_bytes().drop_last()) == Err::<(VersionView, nat), CodecError>(
            CodecError::UnexpectedEnd,
        ),
{
    lemma_auto_spec_u64_to_from_le_bytes();
    lemma_i32_round_trip(v.version);
    lemma_i32_round_trip(v.start_height);
    lemma_i64_round_trip(v.timestamp);
    assert(spec_u64_to_le_bytes(v.services).len() == 8);
    assert(spec_u64_to_le_bytes(v.nonce).len() == 8);
    let a = spec_i32_to_le_bytes(v.version);
    let b = spec_u64_to_le_bytes(v.services);
    let c = spec_i64_to_le_bytes(v.timestamp);
    let d = v.addr_recv.spec_bytes();
    let e = v.addr_trans.spec_bytes();
    let f = spec_u64_to_le_bytes(v.nonce);
    let g = v.user_agent.spec_bytes();
    let h = spec_i32_to_le_bytes(v.start_height);
    let r = spec_relay_bytes(v.relay);
    let empty = Seq::<u8>::empty();
    assert(r.len() == 1);
    let s = v.spec_bytes().drop_last();
    assert(s =~= a + (b + (c + (d + (e + (f + (g + (h + empty))))))));
    assert(s.take(4) =~= a);
    assert(s.skip(4).take(8) =~= b);
    assert(s.skip(12).take(8) =~= c);
    assert(s.skip(20) =~= d + (e + (f + (g + (h + empty)))));
    lemma_net_addr_round_trip(v.addr_recv, e + (f + (g + (h + empty))));
    let p1: int = 20int + d.len();
    assert(s.skip(p1) =~= e + (f + (g + (h + empty))));
    lemma_net_addr_round_trip(v.addr_trans, f + (g + (h + empty)));
    let p2: int = p1 + e.len();
    assert(s.skip(p2).take(8) =~= f);
    let p3: int = p2 + 8;
    assert(s.skip(p3) =~= g + (h + empty));
    lemma_var_str_round_trip(v.user_agent, h + empty);
    let p4: int = p3 + g.len();
    assert(s.skip(p4).take(4) =~= h);
    assert(s.len() == p4 + 4);
}

} // verus!
