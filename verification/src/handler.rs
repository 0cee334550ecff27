//! The handler contract: one bidirectional translation stage, with a declared
//! message shape on each side and a failure path that never loses its input.

use vstd::prelude::*;

verus! {

/// The shape of the messages exchanged at one side of a handler.
///
/// The transport end of a chain always speaks `Bytes`; the shape at the
/// application end is whatever the last handler declares upstream.
#[derive(Clone, Copy, Debug, PartialEq, Eq, Structural)]
pub enum MsgType {
    /// Raw bytes, the shape the transport consumes and produces.
    Bytes,
    /// Byte payloads that have been checked to be ASCII text.
    Text,
}

/// Why a handler could not translate its input.
#[derive(Clone, Copy, Debug, PartialEq, Eq, Structural)]
pub enum LayerTranslatorError {
    /// The input violates the shape this handler consumes.
    Malformed,
    /// The input is truncated: a complete value would need more data.
    Incomplete,
}

/// One bidirectional translation stage.
///
/// A handler declares an upstream shape (facing the application) and a
/// downstream shape (facing the transport). `write` translates one step
/// toward the transport, `read` one step toward the application. Both
/// promise that on failure the original input comes back with the error,
/// so the caller can retry or reroute it without data loss.
pub trait Handler {
    /// The declared shape exchanged with the neighbor closer to the application.
    spec fn up_type(&self) -> MsgType;

    /// The declared shape exchanged with the neighbor closer to the transport.
    spec fn down_type(&self) -> MsgType;

    /// What `write` produces from a given input, or `None` where it must fail.
    spec fn write_spec(&self, outbound: Seq<u8>) -> Option<Seq<u8>>;

    /// What `read` produces from a given input, or `None` where it must fail.
    spec fn read_spec(&self, inbound: Seq<u8>) -> Option<Seq<u8>>;

    /// The upstream shape, as a runtime value for composition-time checks.
    fn declared_up(&self) -> (t: MsgType)
        ensures
            t == self.up_type(),
    ;

    /// The downstream shape, as a runtime value for composition-time checks.
    fn declared_down(&self) -> (t: MsgType)
        ensures
            t == self.down_type(),
    ;

    /// Translate an outbound value one step toward the transport.
    ///
    /// On failure the error carries the exact input, untouched.
    fn write(&self, outbound: Vec<u8>) -> (r: Result<Vec<u8>, (Vec<u8>, LayerTranslatorError)>)
        ensures
            match r {
                Ok(produced) => self.write_spec(outbound@) == Some(produced@),
                Err((returned, _)) => returned@ == outbound@ && self.write_spec(outbound@) is None,
            },
    ;

    /// Translate an inbound value one step toward the application.
    ///
    /// On failure the error carries the exact input, untouched.
    fn read(&self, inbound: Vec<u8>) -> (r: Result<Vec<u8>, (Vec<u8>, LayerTranslatorError)>)
        ensures
            match r {
                Ok(produced) => self.read_spec(inbound@) == Some(produced@),
                Err((returned, _)) => returned@ == inbound@ && self.read_spec(inbound@) is None,
            },
    ;
}

/// Each byte of `s`, duplicated in place.
pub open spec fn doubled(s: Seq<u8>) -> Seq<u8> {
    Seq::new(2 * s.len(), |i: int| s[i / 2])
}

/// Every other byte of `s`, starting with the first.
pub open spec fn halved(s: Seq<u8>) -> Seq<u8> {
    Seq::new(s.len() / 2, |i: int| s[2 * i])
}

/// A byte-to-byte handler that duplicates every byte on `write` and takes
/// every other byte on `read`.
///
/// Its translation is not length-preserving, so the inverse direction is
/// only defined on even-length input; an odd-length `read` fails rather
/// than guessing which byte to drop.
#[derive(Debug)]
pub struct Doubler {}

impl Doubler {
    pub fn new() -> Doubler {
        Doubler {}
    }
}

impl Handler for Doubler {
    open spec fn up_type(&self) -> MsgType {
        MsgType::Bytes
    }

    open spec fn down_type(&self) -> MsgType {
        MsgType::Bytes
    }

    open spec fn write_spec(&self, outbound: Seq<u8>) -> Option<Seq<u8>> {
        Some(doubled(outbound))
    }

    open spec fn read_spec(&self, inbound: Seq<u8>) -> Option<Seq<u8>> {
        if inbound.len() % 2 == 0 {
            Some(halved(inbound))
        } else {
            None
        }
    }

    fn declared_up(&self) -> MsgType {
        MsgType::Bytes
    }

    fn declared_down(&self) -> MsgType {
        MsgType::Bytes
    }

    fn write(&self, outbound: Vec<u8>) -> (r: Result<Vec<u8>, (Vec<u8>, LayerTranslatorError)>) {
        let mut data: Vec<u8> = Vec::new();
        let mut i: usize = 0;
        while i < outbound.len()
            invariant
                i <= outbound@.len(),
                data@.len() == 2 * i,
                forall|k: int| 0 <= k < data@.len() ==> data@[k] == outbound@[k / 2],
            decreases outbound@.len() - i,
        {
            let b = outbound[i];
            data.push(b);
            data.push(b);
            i = i + 1;
        }
        proof {
            assert(data@ =~= doubled(outbound@));
        }
        Ok(data)
    }

    fn read(&self, inbound: Vec<u8>) -> (r: Result<Vec<u8>, (Vec<u8>, LayerTranslatorError)>) {
        if inbound.len() % 2 != 0 {
            return Err((inbound, LayerTranslatorError::Incomplete));
        }
        let n = inbound.len();
        let half = n / 2;
        let mut data: Vec<u8> = Vec::with_capacity(half);
        let mut i: usize = 0;
        while i < half
            invariant
                i <= half,
                n == inbound@.len(),
                half == n / 2,
                data@.len() == i,
                forall|k: int| 0 <= k < data@.len() ==> data@[k] == inbound@[2 * k],
            decreases half - i,
        {
            let b = inbound[2 * i];
            data.push(b);
            i = i + 1;
        }
        proof {
            assert(data@ =~= halved(inbound@));
        }
        Ok(data)
    }
}

/// Whether every byte of `s` is ASCII.
pub open spec fn all_ascii(s: Seq<u8>) -> bool {
    forall|i: int| 0 <= i < s.len() ==> s[i] < 128
}

/// A charset gate between raw bytes and ASCII text: both directions pass
/// the payload through unchanged when every byte is ASCII and fail on the
/// first byte that is not, handing the input back untouched.
///
/// Downstream it speaks raw bytes; upstream, checked text — so it can only
/// stand where its neighbor toward the application expects `Text`.
#[derive(Debug)]
pub struct AsciiChecker {}

impl AsciiChecker {
    pub fn new() -> AsciiChecker {
        AsciiChecker {}
    }
}

/// `data` unchanged when it is all ASCII, and a malformed-input failure
/// otherwise; both directions of [`AsciiChecker`] behave this way.
fn check_ascii(data: Vec<u8>) -> (r: Result<Vec<u8>, (Vec<u8>, LayerTranslatorError)>)
    ensures
        match r {
            Ok(produced) => all_ascii(data@) && produced@ == data@,
            Err((returned, _)) => returned@ == data@ && !all_ascii(data@),
        },
{
    let mut i: usize = 0;
    while i < data.len()
        invariant
            i <= data@.len(),
            forall|k: int| 0 <= k < i ==> data@[k] < 128,
        decreases data@.len() - i,
    {
        if data[i] >= 128 {
            return Err((data, LayerTranslatorError::Malformed));
        }
        i = i + 1;
    }
    Ok(data)
}

impl Handler for AsciiChecker {
    open spec fn up_type(&self) -> MsgType {
        MsgType::Text
    }

    open spec fn down_type(&self) -> MsgType {
        MsgType::Bytes
    }

    open spec fn write_spec(&self, outbound: Seq<u8>) -> Option<Seq<u8>> {
        if all_ascii(outbound) {
            Some(outbound)
        } else {
            None
        }
    }

    open spec fn read_spec(&self, inbound: Seq<u8>) -> Option<Seq<u8>> {
        if all_ascii(inbound) {
            Some(inbound)
        } else {
            None
        }
    }

    fn declared_up(&self) -> MsgType {
        MsgType::Text
    }

    fn declared_down(&self) -> MsgType {
        MsgType::Bytes
    }

    fn write(&self, outbound: Vec<u8>) -> (r: Result<Vec<u8>, (Vec<u8>, LayerTranslatorError)>) {
        check_ascii(outbound)
    }

    fn read(&self, inbound: Vec<u8>) -> (r: Result<Vec<u8>, (Vec<u8>, LayerTranslatorError)>) {
        check_ascii(inbound)
    }
}

/// One stage of a mixed chain: any of the library's concrete handlers, so
/// one pipeline can hold handlers of different kinds side by side. Each
/// operation is exactly the wrapped handler's.
#[derive(Debug)]
pub enum Stage {
    Double(Doubler),
    Ascii(AsciiChecker),
}

impl Handler for Stage {
    open spec fn up_type(&self) -> MsgType {
        match self {
            Stage::Double(h) => h.up_type(),
            Stage::Ascii(h) => h.up_type(),
        }
    }

    open spec fn down_type(&self) -> MsgType {
        match self {
            Stage::Double(h) => h.down_type(),
            Stage::Ascii(h) => h.down_type(),
        }
    }

    open spec fn write_spec(&self, outbound: Seq<u8>) -> Option<Seq<u8>> {
        match self {
            Stage::Double(h) => h.write_spec(outbound),
            Stage::Ascii(h) => h.write_spec(outbound),
        }
    }

    open spec fn read_spec(&self, inbound: Seq<u8>) -> Option<Seq<u8>> {
        match self {
            Stage::Double(h) => h.read_spec(inbound),
            Stage::Ascii(h) => h.read_spec(inbound),
        }
    }

    fn declared_up(&self) -> MsgType {
        match self {
            Stage::Double(h) => h.declared_up(),
            Stage::Ascii(h) => h.declared_up(),
        }
    }

    fn declared_down(&self) -> MsgType {
        match self {
            Stage::Double(h) => h.declared_down(),
            Stage::Ascii(h) => h.declared_down(),
        }
    }

    fn write(&self, outbound: Vec<u8>) -> (r: Result<Vec<u8>, (Vec<u8>, LayerTranslatorError)>) {
        match self {
            Stage::Double(h) => h.write(outbound),
            Stage::Ascii(h) => h.write(outbound),
        }
    }

    fn read(&self, inbound: Vec<u8>) -> (r: Result<Vec<u8>, (Vec<u8>, LayerTranslatorError)>) {
        match self {
            Stage::Double(h) => h.read(inbound),
            Stage::Ascii(h) => h.read(inbound),
        }
    }
}

/// Law: doubling then halving is the identity on every byte sequence. The
/// `write` direction always succeeds and produces the doubled bytes, and
/// `read` applied to that result reproduces the original input exactly.
pub proof fn lemma_doubler_round_trip(d: Doubler, s: Seq<u8>)
    ensures
        d.write_spec(s) == Some(doubled(s)),
        d.read_spec(doubled(s)) == Some(s),
{
    assert(doubled(s).len() % 2 == 0);
    assert(halved(doubled(s)) =~= s);
}

} // verus!
