//! The commands that name the payload of a message.
use vstd::prelude::*;

verus! {

/// A message command; on the wire, its ASCII name padded with zero bytes to
/// twelve bytes.
#[derive(Debug, Clone, Copy, PartialEq, Eq, Structural)]
pub enum Cmd {
    Tx,
    Ping,
    Pong,
    Version,
    Verack,
    GetHeaders,
    SendHeaders,
    Headers,
    GetAddr,
    Addr,
    GetBlocks,
    Block,
    NotFound,
    FeeFilter,
    MemPool,
    Reject,
}

impl View for Cmd {
    type V = Cmd;

    open spec fn view(&self) -> Cmd {
        *self
    }
}

/// The twelve bytes of `a` and `b` are equal.
fn same_bytes(a: &[u8], b: &[u8; 12]) -> (r: bool)
    ensures
        r == (a@ == b@),
{
    if a.len() != 12 {
        return false;
    }
    let mut i: usize = 0;
    while i < 12
        invariant
            i <= 12,
            a@.len() == 12,
            forall|j: int| 0 <= j < i ==> a@[j] == b@[j],
        decreases 12 - i,
    {
        if a[i] != b[i] {
            return false;
        }
        i = i + 1;
    }
    assert(a@ =~= b@);
    true
}

impl Cmd {
    /// The twelve bytes of the command on the wire.
    pub open spec fn spec_value(self) -> Seq<u8> {
        match self {
            Cmd::Tx => seq![0x74u8, 0x78u8, 0x00u8, 0x00u8, 0x00u8, 0x00u8, 0x00u8, 0x00u8, 0x00u8, 0x00u8, 0x00u8, 0x00u8],
            Cmd::Ping => seq![0x70u8, 0x69u8, 0x6Eu8, 0x67u8, 0x00u8, 0x00u8, 0x00u8, 0x00u8, 0x00u8, 0x00u8, 0x00u8, 0x00u8],
            Cmd::Pong => seq![0x70u8, 0x6Fu8, 0x6Eu8, 0x67u8, 0x00u8, 0x00u8, 0x00u8, 0x00u8, 0x00u8, 0x00u8, 0x00u8, 0x00u8],
            Cmd::Version => seq![0x76u8, 0x65u8, 0x72u8, 0x73u8, 0x69u8, 0x6Fu8, 0x6Eu8, 0x00u8, 0x00u8, 0x00u8, 0x00u8, 0x00u8],
            Cmd::Verack => seq![0x76u8, 0x65u8, 0x72u8, 0x61u8, 0x63u8, 0x6Bu8, 0x00u8, 0x00u8, 0x00u8, 0x00u8, 0x00u8, 0x00u8],
            Cmd::GetHeaders => seq![0x67u8, 0x65u8, 0x74u8, 0x68u8, 0x65u8, 0x61u8, 0x64u8, 0x65u8, 0x72u8, 0x73u8, 0x00u8, 0x00u8],
            Cmd::SendHeaders => seq![0x73u8, 0x65u8, 0x6Eu8, 0x64u8, 0x68u8, 0x65u8, 0x61u8, 0x64u8, 0x65u8, 0x72u8, 0x73u8, 0x00u8],
            Cmd::Headers => seq![0x68u8, 0x65u8, 0x61u8, 0x64u8, 0x65u8, 0x72u8, 0x73u8, 0x00u8, 0x00u8, 0x00u8, 0x00u8, 0x00u8],
            Cmd::GetAddr => seq![0x67u8, 0x65u8, 0x74u8, 0x61u8, 0x64u8, 0x64u8, 0x72u8, 0x00u8, 0x00u8, 0x00u8, 0x00u8, 0x00u8],
            Cmd::Addr => seq![0x61u8, 0x64u8, 0x64u8, 0x72u8, 0x00u8, 0x00u8, 0x00u8, 0x00u8, 0x00u8, 0x00u8, 0x00u8, 0x00u8],
            Cmd::GetBlocks => seq![0x67u8, 0x65u8, 0x74u8, 0x62u8, 0x6Cu8, 0x6Fu8, 0x63u8, 0x6Bu8, 0x73u8, 0x00u8, 0x00u8, 0x00u8],
            Cmd::Block => seq![0x62u8, 0x6Cu8, 0x6Fu8, 0x63u8, 0x6Bu8, 0x00u8, 0x00u8, 0x00u8, 0x00u8, 0x00u8, 0x00u8, 0x00u8],
            Cmd::NotFound => seq![0x6Eu8, 0x6Fu8, 0x74u8, 0x66u8, 0x6Fu8, 0x75u8, 0x6Eu8, 0x64u8, 0x00u8, 0x00u8, 0x00u8, 0x00u8],
            Cmd::FeeFilter => seq![0x66u8, 0x65u8, 0x65u8, 0x66u8, 0x69u8, 0x6Cu8, 0x74u8, 0x65u8, 0x72u8, 0x00u8, 0x00u8, 0x00u8],
            Cmd::MemPool => seq![0x6Du8, 0x65u8, 0x6Du8, 0x70u8, 0x6Fu8, 0x6Fu8, 0x6Cu8, 0x00u8, 0x00u8, 0x00u8, 0x00u8, 0x00u8],
            Cmd::Reject => seq![0x72u8, 0x65u8, 0x6Au8, 0x65u8, 0x63u8, 0x74u8, 0x00u8, 0x00u8, 0x00u8, 0x00u8, 0x00u8, 0x00u8],
        }
    }

    /// The command whose twelve bytes are `s`, if any.
    pub open spec fn spec_new(s: Seq<u8>) -> Option<Cmd> {
        if s == Cmd::Tx.spec_value() {
            Some(Cmd::Tx)
        }         else if s == Cmd::Ping.spec_value() {
            Some(Cmd::Ping)
        }         else if s == Cmd::Pong.spec_value() {
            Some(Cmd::Pong)
        }         else if s == Cmd::Version.spec_value() {
            Some(Cmd::Version)
        }         else if s == Cmd::Verack.spec_value() {
            Some(Cmd::Verack)
        }         else if s == Cmd::GetHeaders.spec_value() {
            Some(Cmd::GetHeaders)
        }         else if s == Cmd::SendHeaders.spec_value() {
            Some(Cmd::SendHeaders)
        }         else if s == Cmd::Headers.spec_value() {
            Some(Cmd::Headers)
        }         else if s == Cmd::GetAddr.spec_value() {
            Some(Cmd::GetAddr)
        }         else if s == Cmd::Addr.spec_value() {
            Some(Cmd::Addr)
        }         else if s == Cmd::GetBlocks.spec_value() {
            Some(Cmd::GetBlocks)
        }         else if s == Cmd::Block.spec_value() {
            Some(Cmd::Block)
        }         else if s == Cmd::NotFound.spec_value() {
            Some(Cmd::NotFound)
        }         else if s == Cmd::FeeFilter.spec_value() {
            Some(Cmd::FeeFilter)
        }         else if s == Cmd::MemPool.spec_value() {
            Some(Cmd::MemPool)
        }         else if s == Cmd::Reject.spec_value() {
            Some(Cmd::Reject)
        } else {
            None
        }
    }

    /// The command named by the twelve bytes `bytes`, if any.
    pub fn new(bytes: &[u8]) -> (r: Option<Cmd>)
        ensures
            r == Cmd::spec_new(bytes@),
    {
        if same_bytes(bytes, &Cmd::Tx.value()) {
            return Some(Cmd::Tx);
        }
        if same_bytes(bytes, &Cmd::Ping.value()) {
            return Some(Cmd::Ping);
        }
        if same_bytes(bytes, &Cmd::Pong.value()) {
            return Some(Cmd::Pong);
        }
        if same_bytes(bytes, &Cmd::Version.value()) {
            return Some(Cmd::Version);
        }
        if same_bytes(bytes, &Cmd::Verack.value()) {
            return Some(Cmd::Verack);
        }
        if same_bytes(bytes, &Cmd::GetHeaders.value()) {
            return Some(Cmd::GetHeaders);
        }
        if same_bytes(bytes, &Cmd::SendHeaders.value()) {
            return Some(Cmd::SendHeaders);
        }
        if same_bytes(bytes, &Cmd::Headers.value()) {
            return Some(Cmd::Headers);
        }
        if same_bytes(bytes, &Cmd::GetAddr.value()) {
            return Some(Cmd::GetAddr);
        }
        if same_bytes(bytes, &Cmd::Addr.value()) {
            return Some(Cmd::Addr);
        }
        if same_bytes(bytes, &Cmd::GetBlocks.value()) {
            return Some(Cmd::GetBlocks);
        }
        if same_bytes(bytes, &Cmd::Block.value()) {
            return Some(Cmd::Block);
        }
        if same_bytes(bytes, &Cmd::NotFound.value()) {
            return Some(Cmd::NotFound);
        }
        if same_bytes(bytes, &Cmd::FeeFilter.value()) {
            return Some(Cmd::FeeFilter);
        }
        if same_bytes(bytes, &Cmd::MemPool.value()) {
            return Some(Cmd::MemPool);
        }
        if same_bytes(bytes, &Cmd::Reject.value()) {
            return Some(Cmd::Reject);
        }
        None
    }

    /// The twelve bytes of the command on the wire.
    pub fn value(&self) -> (r: [u8; 12])
        ensures
            r@ == self.spec_value(),
    {
        match *self {
            Cmd::Tx => {
                let r = [0x74u8, 0x78u8, 0x00u8, 0x00u8, 0x00u8, 0x00u8, 0x00u8, 0x00u8, 0x00u8, 0x00u8, 0x00u8, 0x00u8];
                assert(r@ =~= self.spec_value());
                r
            },
            Cmd::Ping => {
                let r = [0x70u8, 0x69u8, 0x6Eu8, 0x67u8, 0x00u8, 0x00u8, 0x00u8, 0x00u8, 0x00u8, 0x00u8, 0x00u8, 0x00u8];
                assert(r@ =~= self.spec_value());
                r
            },
            Cmd::Pong => {
                let r = [0x70u8, 0x6Fu8, 0x6Eu8, 0x67u8, 0x00u8, 0x00u8, 0x00u8, 0x00u8, 0x00u8, 0x00u8, 0x00u8, 0x00u8];
                assert(r@ =~= self.spec_value());
                r
            },
            Cmd::Version => {
                let r = [0x76u8, 0x65u8, 0x72u8, 0x73u8, 0x69u8, 0x6Fu8, 0x6Eu8, 0x00u8, 0x00u8, 0x00u8, 0x00u8, 0x00u8];
                assert(r@ =~= self.spec_value());
                r
            },
            Cmd::Verack => {
                let r = [0x76u8, 0x65u8, 0x72u8, 0x61u8, 0x63u8, 0x6Bu8, 0x00u8, 0x00u8, 0x00u8, 0x00u8, 0x00u8, 0x00u8];
                assert(r@ =~= self.spec_value());
                r
            },
            Cmd::GetHeaders => {
                let r = [0x67u8, 0x65u8, 0x74u8, 0x68u8, 0x65u8, 0x61u8, 0x64u8, 0x65u8, 0x72u8, 0x73u8, 0x00u8, 0x00u8];
                assert(r@ =~= self.spec_value());
                r
            },
            Cmd::SendHeaders => {
                let r = [0x73u8, 0x65u8, 0x6Eu8, 0x64u8, 0x68u8, 0x65u8, 0x61u8, 0x64u8, 0x65u8, 0x72u8, 0x73u8, 0x00u8];
                assert(r@ =~= self.spec_value());
                r
            },
            Cmd::Headers => {
                let r = [0x68u8, 0x65u8, 0x61u8, 0x64u8, 0x65u8, 0x72u8, 0x73u8, 0x00u8, 0x00u8, 0x00u8, 0x00u8, 0x00u8];
                assert(r@ =~= self.spec_value());
                r
            },
            Cmd::GetAddr => {
                let r = [0x67u8, 0x65u8, 0x74u8, 0x61u8, 0x64u8, 0x64u8, 0x72u8, 0x00u8, 0x00u8, 0x00u8, 0x00u8, 0x00u8];
                assert(r@ =~= self.spec_value());
                r
            },
            Cmd::Addr => {
                let r = [0x61u8, 0x64u8, 0x64u8, 0x72u8, 0x00u8, 0x00u8, 0x00u8, 0x00u8, 0x00u8, 0x00u8, 0x00u8, 0x00u8];
                assert(r@ =~= self.spec_value());
                r
            },
            Cmd::GetBlocks => {
                let r = [0x67u8, 0x65u8, 0x74u8, 0x62u8, 0x6Cu8, 0x6Fu8, 0x63u8, 0x6Bu8, 0x73u8, 0x00u8, 0x00u8, 0x00u8];
                assert(r@ =~= self.spec_value());
                r
            },
            Cmd::Block => {
                let r = [0x62u8, 0x6Cu8, 0x6Fu8, 0x63u8, 0x6Bu8, 0x00u8, 0x00u8, 0x00u8, 0x00u8, 0x00u8, 0x00u8, 0x00u8];
                assert(r@ =~= self.spec_value());
                r
            },
            Cmd::NotFound => {
                let r = [0x6Eu8, 0x6Fu8, 0x74u8, 0x66u8, 0x6Fu8, 0x75u8, 0x6Eu8, 0x64u8, 0x00u8, 0x00u8, 0x00u8, 0x00u8];
                assert(r@ =~= self.spec_value());
                r
            },
            Cmd::FeeFilter => {
                let r = [0x66u8, 0x65u8, 0x65u8, 0x66u8, 0x69u8, 0x6Cu8, 0x74u8, 0x65u8, 0x72u8, 0x00u8, 0x00u8, 0x00u8];
                assert(r@ =~= self.spec_value());
                r
            },
            Cmd::MemPool => {
                let r = [0x6Du8, 0x65u8, 0x6Du8, 0x70u8, 0x6Fu8, 0x6Fu8, 0x6Cu8, 0x00u8, 0x00u8, 0x00u8, 0x00u8, 0x00u8];
                assert(r@ =~= self.spec_value());
                r
            },
            Cmd::Reject => {
                let r = [0x72u8, 0x65u8, 0x6Au8, 0x65u8, 0x63u8, 0x74u8, 0x00u8, 0x00u8, 0x00u8, 0x00u8, 0x00u8, 0x00u8];
                assert(r@ =~= self.spec_value());
                r
            },
        }
    }
}

/// The bytes of a command name the command again.
pub proof fn lemma_cmd_value_names_cmd(c: Cmd)
    ensures
        Cmd::spec_new(c.spec_value()) == Some(c),
{
}

/// The twelve bytes that carry a command named `name`: the name's ASCII
/// codes, then zero bytes.
pub open spec fn ascii_name(name: Seq<char>) -> Seq<u8> {
    Seq::new(12, |i: int| if i < name.len() { name[i] as u8 } else { 0u8 })
}

/// Each command is written as its name in the protocol, zero-padded to
/// twelve bytes.
pub proof fn lemma_cmd_wire_names()
    ensures
        Cmd::Tx.spec_value() == ascii_name("tx"@),
        Cmd::Ping.spec_value() == ascii_name("ping"@),
        Cmd::Pong.spec_value() == ascii_name("pong"@),
        Cmd::Version.spec_value() == ascii_name("version"@),
        Cmd::Verack.spec_value() == ascii_name("verack"@),
        Cmd::GetHeaders.spec_value() == ascii_name("getheaders"@),
        Cmd::SendHeaders.spec_value() == ascii_name("sendheaders"@),
        Cmd::Headers.spec_value() == ascii_name("headers"@),
        Cmd::GetAddr.spec_value() == ascii_name("getaddr"@),
        Cmd::Addr.spec_value() == ascii_name("addr"@),
        Cmd::GetBlocks.spec_value() == ascii_name("getblocks"@),
        Cmd::Block.spec_value() == ascii_name("block"@),
        Cmd::NotFound.spec_value() == ascii_name("notfound"@),
        Cmd::FeeFilter.spec_value() == ascii_name("feefilter"@),
        Cmd::MemPool.spec_value() == ascii_name("mempool"@),
        Cmd::Reject.spec_value() == ascii_name("reject"@),
{
    reveal_strlit("tx");
    reveal_strlit("ping");
    reveal_strlit("pong");
    reveal_strlit("version");
    reveal_strlit("verack");
    reveal_strlit("getheaders");
    reveal_strlit("sendheaders");
    reveal_strlit("headers");
    reveal_strlit("getaddr");
    reveal_strlit("addr");
    reveal_strlit("getblocks");
    reveal_strlit("block");
    reveal_strlit("notfound");
    reveal_strlit("feefilter");
    reveal_strlit("mempool");
    reveal_strlit("reject");
    assert(Cmd::Tx.spec_value() =~= ascii_name("tx"@));
    assert(Cmd::Ping.spec_value() =~= ascii_name("ping"@));
    assert(Cmd::Pong.spec_value() =~= ascii_name("pong"@));
    assert(Cmd::Version.spec_value() =~= ascii_name("version"@));
    assert(Cmd::Verack.spec_value() =~= ascii_name("verack"@));
    assert(Cmd::GetHeaders.spec_value() =~= ascii_name("getheaders"@));
    assert(Cmd::SendHeaders.spec_value() =~= ascii_name("sendheaders"@));
    assert(Cmd::Headers.spec_value() =~= ascii_name("headers"@));
    assert(Cmd::GetAddr.spec_value() =~= ascii_name("getaddr"@));
    assert(Cmd::Addr.spec_value() =~= ascii_name("addr"@));
    assert(Cmd::GetBlocks.spec_value() =~= ascii_name("getblocks"@));
    assert(Cmd::Block.spec_value() =~= ascii_name("block"@));
    assert(Cmd::NotFound.spec_value() =~= ascii_name("notfound"@));
    assert(Cmd::FeeFilter.spec_value() =~= ascii_name("feefilter"@));
    assert(Cmd::MemPool.spec_value() =~= ascii_name("mempool"@));
    assert(Cmd::Reject.spec_value() =~= ascii_name("reject"@));
}

/// Each name in the protocol, zero-padded to twelve bytes, reads as its
/// command.
pub proof fn lemma_cmd_read_names()
    ensures
        Cmd::spec_new(ascii_name("tx"@)) == Some(Cmd::Tx),
        Cmd::spec_new(ascii_name("ping"@)) == Some(Cmd::Ping),
        Cmd::spec_new(ascii_name("pong"@)) == Some(Cmd::Pong),
        Cmd::spec_new(ascii_name("version"@)) == Some(Cmd::Version),
        Cmd::spec_new(ascii_name("verack"@)) == Some(Cmd::Verack),
        Cmd::spec_new(ascii_name("getheaders"@)) == Some(Cmd::GetHeaders),
        Cmd::spec_new(ascii_name("sendheaders"@)) == Some(Cmd::SendHeaders),
        Cmd::spec_new(ascii_name("headers"@)) == Some(Cmd::Headers),
        Cmd::spec_new(ascii_name("getaddr"@)) == Some(Cmd::GetAddr),
        Cmd::spec_new(ascii_name("addr"@)) == Some(Cmd::Addr),
        Cmd::spec_new(ascii_name("getblocks"@)) == Some(Cmd::GetBlocks),
        Cmd::spec_new(ascii_name("block"@)) == Some(Cmd::Block),
        Cmd::spec_new(ascii_name("notfound"@)) == Some(Cmd::NotFound),
        Cmd::spec_new(ascii_name("feefilter"@)) == Some(Cmd::FeeFilter),
        Cmd::spec_new(ascii_name("mempool"@)) == Some(Cmd::MemPool),
        Cmd::spec_new(ascii_name("reject"@)) == Some(Cmd::Reject),
{
    lemma_cmd_wire_names();
    lemma_cmd_value_names_cmd(Cmd::Tx);
    lemma_cmd_value_names_cmd(Cmd::Ping);
    lemma_cmd_value_names_cmd(Cmd::Pong);
    lemma_cmd_value_names_cmd(Cmd::Version);
    lemma_cmd_value_names_cmd(Cmd::Verack);
    lemma_cmd_value_names_cmd(Cmd::GetHeaders);
    lemma_cmd_value_names_cmd(Cmd::SendHeaders);
    lemma_cmd_value_names_cmd(Cmd::Headers);
    lemma_cmd_value_names_cmd(Cmd::GetAddr);
    lemma_cmd_value_names_cmd(Cmd::Addr);
    lemma_cmd_value_names_cmd(Cmd::GetBlocks);
    lemma_cmd_value_names_cmd(Cmd::Block);
    lemma_cmd_value_names_cmd(Cmd::NotFound);
    lemma_cmd_value_names_cmd(Cmd::FeeFilter);
    lemma_cmd_value_names_cmd(Cmd::MemPool);
    lemma_cmd_value_names_cmd(Cmd::Reject);
}

} // verus!
