use vstd::prelude::*;
use crate::codec::{parse_uint, uint_at, TlsCodec};
use crate::error::CodecError;
use crate::record::{deserialize2, lemma_parse2_takes, parse2, serialize2};
use crate::tlsvec::{TlsByteVec16, TlsByteVec24};
use crate::uint::{be_bytes, pow256, write_uint};

verus! {

/// A DER-encoded X.509 certificate, carried as opaque bytes behind a
/// three-byte length prefix.
#[derive(PartialEq, Eq, Debug)]
pub struct Asn1Cert {
    pub opaque: TlsByteVec24,
}

/// A precertificate: the hash of its issuer's public key and its
/// TBSCertificate, the latter behind a three-byte length prefix.
#[derive(PartialEq, Eq, Debug)]
pub struct PreCert {
    pub issuer_key_hash: [u8; 32],
    pub tbs_certificate: TlsByteVec24,
}

/// The entry of a log: selector `0` for a certificate, `1` for a
/// precertificate, written as two bytes.
#[derive(PartialEq, Eq, Debug)]
pub enum LogEntry {
    X509Entry(Asn1Cert),
    PrecertEntry(PreCert),
}

/// A log entry with its time stamp (milliseconds since the epoch) and
/// extension bytes behind a two-byte length prefix.
#[derive(PartialEq, Eq, Debug)]
pub struct TimeStampedEntry {
    pub timestamp: u64,
    pub log_entry: LogEntry,
    pub extensions: TlsByteVec16,
}

/// What a Merkle tree leaf holds: selector `0`, one byte, for a time-stamped
/// entry, the only kind there is.
#[derive(PartialEq, Eq, Debug)]
pub enum MerkleLeaf {
    TimeStampedEntry(TimeStampedEntry),
}

/// A leaf of a log's Merkle tree: a version byte and the leaf's content.
#[derive(PartialEq, Eq, Debug)]
pub struct MerkleTreeLeaf {
    pub version: u8,
    pub signed_entry: MerkleLeaf,
}

/// The model of a `LogEntry`: the certificate bytes, or the issuer key hash
/// and TBSCertificate bytes.
pub enum LogEntryModel {
    X509Entry(Seq<u8>),
    PrecertEntry((Seq<u8>, Seq<u8>)),
}

/// The model of a `MerkleLeaf`: time stamp, log entry and extension bytes.
pub enum MerkleLeafModel {
    TimeStampedEntry((u64, (LogEntryModel, Seq<u8>))),
}

impl View for Asn1Cert {
    type V = Seq<u8>;

    open spec fn view(&self) -> Seq<u8> {
        self.opaque@
    }
}

impl View for PreCert {
    type V = (Seq<u8>, Seq<u8>);

    open spec fn view(&self) -> (Seq<u8>, Seq<u8>) {
        (self.issuer_key_hash@, self.tbs_certificate@)
    }
}

impl View for LogEntry {
    type V = LogEntryModel;

    open spec fn view(&self) -> LogEntryModel {
        match self {
            LogEntry::X509Entry(c) => LogEntryModel::X509Entry(c@),
            LogEntry::PrecertEntry(p) => LogEntryModel::PrecertEntry(p@),
        }
    }
}

impl View for TimeStampedEntry {
    type V = (u64, (LogEntryModel, Seq<u8>));

    open spec fn view(&self) -> (u64, (LogEntryModel, Seq<u8>)) {
        (self.timestamp, (self.log_entry@, self.extensions@))
    }
}

impl View for MerkleLeaf {
    type V = MerkleLeafModel;

    open spec fn view(&self) -> MerkleLeafModel {
        match self {
            MerkleLeaf::TimeStampedEntry(e) => MerkleLeafModel::TimeStampedEntry(e@),
        }
    }
}

impl View for MerkleTreeLeaf {
    type V = (u8, MerkleLeafModel);

    open spec fn view(&self) -> (u8, MerkleLeafModel) {
        (self.version, self.signed_entry@)
    }
}

impl TlsCodec for Asn1Cert {
    open spec fn valid(m: Seq<u8>) -> bool {
        TlsByteVec24::valid(m)
    }

    open spec fn wire(m: Seq<u8>) -> Seq<u8> {
        TlsByteVec24::wire(m)
    }

    open spec fn parse(s: Seq<u8>) -> Result<(Seq<u8>, nat), CodecError> {
        TlsByteVec24::parse(s)
    }

    proof fn lemma_parse_takes(s: Seq<u8>) {
        TlsByteVec24::lemma_parse_takes(s);
    }

    proof fn lemma_round_trip(m: Seq<u8>, rest: Seq<u8>) {
        TlsByteVec24::lemma_round_trip(m, rest);
    }

    fn tls_serialized_len(&self) -> (r: usize) {
        self.opaque.tls_serialized_len()
    }

    fn tls_serialize(&self, out: &mut Vec<u8>) -> (r: Result<usize, CodecError>) {
        self.opaque.tls_serialize(out)
    }

    fn tls_deserialize(buf: &[u8], pos: usize) -> (r: Result<(Asn1Cert, usize), CodecError>) {
        match TlsByteVec24::tls_deserialize(buf, pos) {
            Ok((opaque, n)) => Ok((Asn1Cert { opaque }, n)),
            Err(e) => Err(e),
        }
    }
}

impl TlsCodec for PreCert {
    open spec fn valid(m: (Seq<u8>, Seq<u8>)) -> bool {
        <([u8; 32], TlsByteVec24)>::valid(m)
    }

    open spec fn wire(m: (Seq<u8>, Seq<u8>)) -> Seq<u8> {
        <([u8; 32], TlsByteVec24)>::wire(m)
    }

    open spec fn parse(s: Seq<u8>) -> Result<((Seq<u8>, Seq<u8>), nat), CodecError> {
        parse2::<[u8; 32], TlsByteVec24>(s)
    }

    proof fn lemma_parse_takes(s: Seq<u8>) {
        lemma_parse2_takes::<[u8; 32], TlsByteVec24>(s);
    }

    proof fn lemma_round_trip(m: (Seq<u8>, Seq<u8>), rest: Seq<u8>) {
        <([u8; 32], TlsByteVec24)>::lemma_round_trip(m, rest);
    }

    fn tls_serialized_len(&self) -> (r: usize) {
        self.issuer_key_hash.tls_serialized_len() + self.tbs_certificate.tls_serialized_len()
    }

    fn tls_serialize(&self, out: &mut Vec<u8>) -> (r: Result<usize, CodecError>) {
        let r = serialize2(&self.issuer_key_hash, &self.tbs_certificate, out);
        assert(old(out)@ + self.issuer_key_hash@ + TlsByteVec24::wire(self.tbs_certificate@)
            =~= old(out)@ + Self::wire(self@));
        r
    }

    fn tls_deserialize(buf: &[u8], pos: usize) -> (r: Result<(PreCert, usize), CodecError>) {
        match deserialize2::<[u8; 32], TlsByteVec24>(buf, pos) {
            Ok((issuer_key_hash, tbs_certificate, n)) => Ok(
                (PreCert { issuer_key_hash, tbs_certificate }, n),
            ),
            Err(e) => Err(e),
        }
    }
}

impl TlsCodec for LogEntry {
    open spec fn valid(m: LogEntryModel) -> bool {
        match m {
            LogEntryModel::X509Entry(c) => Asn1Cert::valid(c),
            LogEntryModel::PrecertEntry(p) => PreCert::valid(p),
        }
    }

    open spec fn wire(m: LogEntryModel) -> Seq<u8> {
        match m {
            LogEntryModel::X509Entry(c) => be_bytes(0, 2) + Asn1Cert::wire(c),
            LogEntryModel::PrecertEntry(p) => be_bytes(1, 2) + PreCert::wire(p),
        }
    }

    open spec fn parse(s: Seq<u8>) -> Result<(LogEntryModel, nat), CodecError> {
        match parse_uint(s, 2) {
            Err(e) => Err(e),
            Ok((sel, w)) => {
                let body = s.subrange(w as int, s.len() as int);
                if sel == 0 {
                    match Asn1Cert::parse(body) {
                        Ok((c, n)) => Ok((LogEntryModel::X509Entry(c), w + n)),
                        Err(e) => Err(e),
                    }
                } else if sel == 1 {
                    match PreCert::parse(body) {
                        Ok((p, n)) => Ok((LogEntryModel::PrecertEntry(p), w + n)),
                        Err(e) => Err(e),
                    }
                } else {
                    Err(CodecError::UnknownVariant(sel as u64))
                }
            },
        }
    }

    proof fn lemma_parse_takes(s: Seq<u8>) {
        let body = s.subrange(2, s.len() as int);
        Asn1Cert::lemma_parse_takes(body);
        PreCert::lemma_parse_takes(body);
    }

    proof fn lemma_round_trip(m: LogEntryModel, rest: Seq<u8>) {
        reveal_with_fuel(pow256, 3);
        let sel: nat = if m is X509Entry { 0 } else { 1 };
        let payload = match m {
            LogEntryModel::X509Entry(c) => Asn1Cert::wire(c),
            LogEntryModel::PrecertEntry(p) => PreCert::wire(p),
        };
        let s = Self::wire(m) + rest;
        assert(s =~= be_bytes(sel, 2) + (payload + rest));
        crate::codec::lemma_uint_round_trip(sel, 2, payload + rest);
        crate::uint::lemma_be_bytes_len(sel, 2);
        assert(s.subrange(2, s.len() as int) =~= payload + rest);
        match m {
            LogEntryModel::X509Entry(c) => Asn1Cert::lemma_round_trip(c, rest),
            LogEntryModel::PrecertEntry(p) => PreCert::lemma_round_trip(p, rest),
        }
    }

    fn tls_serialized_len(&self) -> (r: usize) {
        proof {
            crate::uint::lemma_be_bytes_len(0, 2);
            crate::uint::lemma_be_bytes_len(1, 2);
        }
        match self {
            LogEntry::X509Entry(c) => 2 + c.tls_serialized_len(),
            LogEntry::PrecertEntry(p) => 2 + p.tls_serialized_len(),
        }
    }

    fn tls_serialize(&self, out: &mut Vec<u8>) -> (r: Result<usize, CodecError>) {
        proof {
            reveal_with_fuel(pow256, 3);
            crate::uint::lemma_be_bytes_len(0, 2);
            crate::uint::lemma_be_bytes_len(1, 2);
        }
        let start = out.len();
        let ghost before = out@;
        let r = match self {
            LogEntry::X509Entry(c) => {
                write_uint(0, 2, out);
                c.tls_serialize(out)
            },
            LogEntry::PrecertEntry(p) => {
                write_uint(1, 2, out);
                p.tls_serialize(out)
            },
        };
        match r {
            Ok(_) => {
                assert(out@ =~= before + Self::wire(self@));
                Ok(out.len() - start)
            },
            Err(e) => {
                assert(out@.subrange(0, before.len() as int) =~= out@.subrange(0, (before.len() + 2) as int).subrange(
                    0,
                    before.len() as int,
                ));
                Err(e)
            },
        }
    }

    fn tls_deserialize(buf: &[u8], pos: usize) -> (r: Result<(LogEntry, usize), CodecError>) {
        let ghost s = buf@.subrange(pos as int, buf@.len() as int);
        let total = buf.len();
        let sel = match uint_at(buf, pos, 2) {
            Ok((v, _)) => v,
            Err(e) => {
                return Err(e);
            },
        };
        let ghost body = buf@.subrange(pos + 2, buf@.len() as int);
        assert(s.subrange(2, s.len() as int) =~= body);
        if sel == 0 {
            match Asn1Cert::tls_deserialize(buf, pos + 2) {
                Ok((c, n)) => {
                    proof {
                        Asn1Cert::lemma_parse_takes(body);
                    }
                    Ok((LogEntry::X509Entry(c), 2 + n))
                },
                Err(e) => Err(e),
            }
        } else if sel == 1 {
            match PreCert::tls_deserialize(buf, pos + 2) {
                Ok((p, n)) => {
                    proof {
                        PreCert::lemma_parse_takes(body);
                    }
                    Ok((LogEntry::PrecertEntry(p), 2 + n))
                },
                Err(e) => Err(e),
            }
        } else {
            Err(CodecError::UnknownVariant(sel))
        }
    }
}

} // verus!

verus! {

impl TlsCodec for TimeStampedEntry {
    open spec fn valid(m: (u64, (LogEntryModel, Seq<u8>))) -> bool {
        <(u64, (LogEntry, TlsByteVec16))>::valid(m)
    }

    open spec fn wire(m: (u64, (LogEntryModel, Seq<u8>))) -> Seq<u8> {
        <(u64, (LogEntry, TlsByteVec16))>::wire(m)
    }

    open spec fn parse(s: Seq<u8>) -> Result<((u64, (LogEntryModel, Seq<u8>)), nat), CodecError> {
        parse2::<u64, (LogEntry, TlsByteVec16)>(s)
    }

    proof fn lemma_parse_takes(s: Seq<u8>) {
        lemma_parse2_takes::<u64, (LogEntry, TlsByteVec16)>(s);
    }

    proof fn lemma_round_trip(m: (u64, (LogEntryModel, Seq<u8>)), rest: Seq<u8>) {
        <(u64, (LogEntry, TlsByteVec16))>::lemma_round_trip(m, rest);
    }

    fn tls_serialized_len(&self) -> (r: usize) {
        proof {
            crate::uint::lemma_be_bytes_len(self.timestamp as nat, 8);
        }
        8 + self.log_entry.tls_serialized_len() + self.extensions.tls_serialized_len()
    }

    fn tls_serialize(&self, out: &mut Vec<u8>) -> (r: Result<usize, CodecError>) {
        let ghost before = out@;
        let start = out.len();
        let _ = self.timestamp.tls_serialize(out);
        let ghost mid = out@;
        match serialize2(&self.log_entry, &self.extensions, out) {
            Ok(_) => {
                assert(out@ =~= before + Self::wire(self@));
                Ok(out.len() - start)
            },
            Err(e) => {
                assert(out@.subrange(0, before.len() as int) =~= out@.subrange(
                    0,
                    mid.len() as int,
                ).subrange(0, before.len() as int));
                Err(e)
            },
        }
    }

    fn tls_deserialize(buf: &[u8], pos: usize) -> (r: Result<(TimeStampedEntry, usize), CodecError>) {
        match deserialize2::<u64, (LogEntry, TlsByteVec16)>(buf, pos) {
            Ok((timestamp, (log_entry, extensions), n)) => Ok(
                (TimeStampedEntry { timestamp, log_entry, extensions }, n),
            ),
            Err(e) => Err(e),
        }
    }
}

impl TlsCodec for MerkleLeaf {
    open spec fn valid(m: MerkleLeafModel) -> bool {
        match m {
            MerkleLeafModel::TimeStampedEntry(e) => TimeStampedEntry::valid(e),
        }
    }

    open spec fn wire(m: MerkleLeafModel) -> Seq<u8> {
        match m {
            MerkleLeafModel::TimeStampedEntry(e) => seq![0u8] + TimeStampedEntry::wire(e),
        }
    }

    open spec fn parse(s: Seq<u8>) -> Result<(MerkleLeafModel, nat), CodecError> {
        match parse_uint(s, 1) {
            Err(e) => Err(e),
            Ok((sel, w)) => if sel == 0 {
                match TimeStampedEntry::parse(s.subrange(w as int, s.len() as int)) {
                    Ok((e, n)) => Ok((MerkleLeafModel::TimeStampedEntry(e), w + n)),
                    Err(e) => Err(e),
                }
            } else {
                Err(CodecError::UnknownVariant(sel as u64))
            },
        }
    }

    proof fn lemma_parse_takes(s: Seq<u8>) {
        TimeStampedEntry::lemma_parse_takes(s.subrange(1, s.len() as int));
    }

    proof fn lemma_round_trip(m: MerkleLeafModel, rest: Seq<u8>) {
        let MerkleLeafModel::TimeStampedEntry(e) = m;
        let s = Self::wire(m) + rest;
        assert(s.subrange(0, 1) =~= seq![0u8]);
        assert(s.subrange(0, 1).drop_last() =~= Seq::<u8>::empty());
        assert(crate::uint::be_value(s.subrange(0, 1)) == 0) by {
            reveal_with_fuel(crate::uint::be_value, 2);
        }
        assert(s.subrange(1, s.len() as int) =~= TimeStampedEntry::wire(e) + rest);
        TimeStampedEntry::lemma_round_trip(e, rest);
    }

    fn tls_serialized_len(&self) -> (r: usize) {
        match self {
            MerkleLeaf::TimeStampedEntry(e) => 1 + e.tls_serialized_len(),
        }
    }

    fn tls_serialize(&self, out: &mut Vec<u8>) -> (r: Result<usize, CodecError>) {
        let ghost before = out@;
        let start = out.len();
        match self {
            MerkleLeaf::TimeStampedEntry(e) => {
                out.push(0u8);
                let ghost mid = out@;
                match e.tls_serialize(out) {
                    Ok(_) => {
                        assert(out@ =~= before + Self::wire(self@));
                        Ok(out.len() - start)
                    },
                    Err(err) => {
                        assert(out@.subrange(0, before.len() as int) =~= out@.subrange(
                            0,
                            mid.len() as int,
                        ).subrange(0, before.len() as int));
                        Err(err)
                    },
                }
            },
        }
    }

    fn tls_deserialize(buf: &[u8], pos: usize) -> (r: Result<(MerkleLeaf, usize), CodecError>) {
        let ghost s = buf@.subrange(pos as int, buf@.len() as int);
        let total = buf.len();
        let sel = match uint_at(buf, pos, 1) {
            Ok((v, _)) => v,
            Err(e) => {
                return Err(e);
            },
        };
        let ghost body = buf@.subrange(pos + 1, buf@.len() as int);
        assert(s.subrange(1, s.len() as int) =~= body);
        if sel == 0 {
            match TimeStampedEntry::tls_deserialize(buf, pos + 1) {
                Ok((e, n)) => {
                    proof {
                        TimeStampedEntry::lemma_parse_takes(body);
                    }
                    Ok((MerkleLeaf::TimeStampedEntry(e), 1 + n))
                },
                Err(e) => Err(e),
            }
        } else {
            Err(CodecError::UnknownVariant(sel))
        }
    }
}

impl TlsCodec for MerkleTreeLeaf {
    open spec fn valid(m: (u8, MerkleLeafModel)) -> bool {
        <(u8, MerkleLeaf)>::valid(m)
    }

    open spec fn wire(m: (u8, MerkleLeafModel)) -> Seq<u8> {
        <(u8, MerkleLeaf)>::wire(m)
    }

    open spec fn parse(s: Seq<u8>) -> Result<((u8, MerkleLeafModel), nat), CodecError> {
        parse2::<u8, MerkleLeaf>(s)
    }

    proof fn lemma_parse_takes(s: Seq<u8>) {
        lemma_parse2_takes::<u8, MerkleLeaf>(s);
    }

    proof fn lemma_round_trip(m: (u8, MerkleLeafModel), rest: Seq<u8>) {
        <(u8, MerkleLeaf)>::lemma_round_trip(m, rest);
    }

    fn tls_serialized_len(&self) -> (r: usize) {
        1 + self.signed_entry.tls_serialized_len()
    }

    fn tls_serialize(&self, out: &mut Vec<u8>) -> (r: Result<usize, CodecError>) {
        let r = serialize2(&self.version, &self.signed_entry, out);
        assert(old(out)@ + seq![self.version] + MerkleLeaf::wire(self.signed_entry@)
            =~= old(out)@ + Self::wire(self@));
        r
    }

    fn tls_deserialize(buf: &[u8], pos: usize) -> (r: Result<(MerkleTreeLeaf, usize), CodecError>) {
        match deserialize2::<u8, MerkleLeaf>(buf, pos) {
            Ok((version, signed_entry, n)) => Ok((MerkleTreeLeaf { version, signed_entry }, n)),
            Err(e) => Err(e),
        }
    }
}

} // verus!
