//! The canonical byte layout of every value: fixed width, fields in order,
//! integers little-endian.
//!
//! Decoding reads a prefix of its input and fails with
//! [`MantaError::ShortRead`] when the input is shorter. A coin or a full
//! receiver decodes into a pending value that has to pass its consistency
//! check before it is handed out.
use crate::asset::{
    MantaAsset, MantaAssetFullReceiver, MantaAssetPrivInfo, MantaAssetProcessedReceiver,
    MantaAssetPubInfo, MantaAssetReceiverSpendingInfo, MantaAssetShieldedAddress,
};
use crate::bytes::{
    lemma_array_from_view, lemma_le_bytes_injective, le_bytes, push_array, push_u64, read_array,
    read_u64,
};
use crate::error::MantaError;
use vstd::prelude::*;

verus! {

pub const PUB_INFO_LEN: usize = 160;

pub const PRIV_INFO_LEN: usize = 40;

pub const ASSET_LEN: usize = 272;

pub const SHIELDED_ADDRESS_LEN: usize = 136;

pub const SPENDING_INFO_LEN: usize = 168;

pub const FULL_RECEIVER_LEN: usize = 304;

pub const PROCESSED_RECEIVER_LEN: usize = 224;

/// Two concatenations with parts of equal length agree part by part.
proof fn lemma_split(a1: Seq<u8>, b1: Seq<u8>, a2: Seq<u8>, b2: Seq<u8>)
    requires
        a1 + b1 == a2 + b2,
        a1.len() == a2.len(),
    ensures
        a1 == a2,
        b1 == b2,
{
    assert(a1 =~= (a1 + b1).subrange(0, a1.len() as int));
    assert(a2 =~= (a2 + b2).subrange(0, a2.len() as int));
    assert(b1 =~= (a1 + b1).subrange(a1.len() as int, (a1 + b1).len() as int));
    assert(b2 =~= (a2 + b2).subrange(a2.len() as int, (a2 + b2).len() as int));
}

/// Splits off a trailing byte array.
proof fn lemma_split_array<const N: usize>(a1: Seq<u8>, x: [u8; N], a2: Seq<u8>, y: [u8; N])
    requires
        a1 + x@ == a2 + y@,
    ensures
        a1 == a2,
        x == y,
{
    assert(x@.len() == N && y@.len() == N);
    assert((a1 + x@).len() == a1.len() + N);
    assert((a2 + y@).len() == a2.len() + N);
    lemma_split(a1, x@, a2, y@);
    lemma_array_from_view(x, y);
}

impl MantaAssetPubInfo {
    /// `pk ‖ rho ‖ s ‖ r ‖ k`.
    pub open spec fn encoding(&self) -> Seq<u8> {
        self.pk@ + self.rho@ + self.s@ + self.r@ + self.k@
    }

    pub fn write_to(&self, out: &mut Vec<u8>)
        ensures
            final(out)@ == old(out)@ + self.encoding(),
    {
        let ghost start = out@;
        push_array(out, &self.pk);
        push_array(out, &self.rho);
        push_array(out, &self.s);
        push_array(out, &self.r);
        push_array(out, &self.k);
        assert(out@ =~= start + self.encoding());
    }

    pub fn serialize(&self) -> (b: Vec<u8>)
        ensures
            b@ == self.encoding(),
    {
        let mut out: Vec<u8> = Vec::new();
        self.write_to(&mut out);
        assert(out@ =~= self.encoding());
        out
    }

    pub fn decode_at(b: &[u8], pos: usize) -> (x: Self)
        requires
            pos + PUB_INFO_LEN <= b@.len(),
        ensures
            x.encoding() == b@.subrange(pos as int, pos + PUB_INFO_LEN),
    {
        let len: usize = b.len();
        assert(pos + PUB_INFO_LEN <= len);
        let x = MantaAssetPubInfo {
            pk: read_array(b, pos),
            rho: read_array(b, pos + 32),
            s: read_array(b, pos + 64),
            r: read_array(b, pos + 96),
            k: read_array(b, pos + 128),
        };
        assert(x.encoding() =~= b@.subrange(pos as int, pos + PUB_INFO_LEN));
        x
    }

    pub fn deserialize(b: &[u8]) -> (r: Result<Self, MantaError>)
        ensures
            r is Err <==> b@.len() < PUB_INFO_LEN,
            r matches Err(e) ==> e == MantaError::ShortRead,
            r matches Ok(x) ==> x.encoding() == b@.subrange(0, PUB_INFO_LEN as int),
    {
        if b.len() < PUB_INFO_LEN {
            Err(MantaError::ShortRead)
        } else {
            Ok(Self::decode_at(b, 0))
        }
    }
}

/// Public information with the same bytes is the same.
pub proof fn lemma_pub_info_encoding_injective(x: MantaAssetPubInfo, y: MantaAssetPubInfo)
    requires
        x.encoding() == y.encoding(),
    ensures
        x == y,
{
    lemma_split_array(x.pk@ + x.rho@ + x.s@ + x.r@, x.k, y.pk@ + y.rho@ + y.s@ + y.r@, y.k);
    lemma_split_array(x.pk@ + x.rho@ + x.s@, x.r, y.pk@ + y.rho@ + y.s@, y.r);
    lemma_split_array(x.pk@ + x.rho@, x.s, y.pk@ + y.rho@, y.s);
    lemma_split_array(x.pk@, x.rho, y.pk@, y.rho);
    lemma_array_from_view(x.pk, y.pk);
}

impl MantaAssetPrivInfo {
    /// `value ‖ sk`.
    pub open spec fn encoding(&self) -> Seq<u8> {
        le_bytes(self.value) + self.sk@
    }

    pub fn write_to(&self, out: &mut Vec<u8>)
        ensures
            final(out)@ == old(out)@ + self.encoding(),
    {
        let ghost start = out@;
        push_u64(out, self.value);
        push_array(out, &self.sk);
        assert(out@ =~= start + self.encoding());
    }

    pub fn serialize(&self) -> (b: Vec<u8>)
        ensures
            b@ == self.encoding(),
    {
        let mut out: Vec<u8> = Vec::new();
        self.write_to(&mut out);
        assert(out@ =~= self.encoding());
        out
    }

    pub fn decode_at(b: &[u8], pos: usize) -> (x: Self)
        requires
            pos + PRIV_INFO_LEN <= b@.len(),
        ensures
            x.encoding() == b@.subrange(pos as int, pos + PRIV_INFO_LEN),
    {
        let len: usize = b.len();
        assert(pos + PRIV_INFO_LEN <= len);
        let x = MantaAssetPrivInfo { value: read_u64(b, pos), sk: read_array(b, pos + 8) };
        assert(x.encoding() =~= b@.subrange(pos as int, pos + PRIV_INFO_LEN));
        x
    }

    pub fn deserialize(b: &[u8]) -> (r: Result<Self, MantaError>)
        ensures
            r is Err <==> b@.len() < PRIV_INFO_LEN,
            r matches Err(e) ==> e == MantaError::ShortRead,
            r matches Ok(x) ==> x.encoding() == b@.subrange(0, PRIV_INFO_LEN as int),
    {
        if b.len() < PRIV_INFO_LEN {
            Err(MantaError::ShortRead)
        } else {
            Ok(Self::decode_at(b, 0))
        }
    }
}

/// Private information with the same bytes is the same.
pub proof fn lemma_priv_info_encoding_injective(x: MantaAssetPrivInfo, y: MantaAssetPrivInfo)
    requires
        x.encoding() == y.encoding(),
    ensures
        x == y,
{
    lemma_split_array(le_bytes(x.value), x.sk, le_bytes(y.value), y.sk);
    lemma_le_bytes_injective(x.value, y.value);
}

impl MantaAsset {
    /// `asset_id ‖ utxo ‖ void_number ‖ pub_info ‖ priv_info`.
    pub open spec fn encoding(&self) -> Seq<u8> {
        le_bytes(self.asset_id) + self.utxo@ + self.void_number@ + self.pub_info.encoding()
            + self.priv_info.encoding()
    }

    pub fn serialize(&self) -> (b: Vec<u8>)
        ensures
            b@ == self.encoding(),
    {
        let mut out: Vec<u8> = Vec::new();
        push_u64(&mut out, self.asset_id);
        push_array(&mut out, &self.utxo);
        push_array(&mut out, &self.void_number);
        self.pub_info.write_to(&mut out);
        self.priv_info.write_to(&mut out);
        assert(out@ =~= self.encoding());
        out
    }

    fn decode_at(b: &[u8], pos: usize) -> (x: Self)
        requires
            pos + ASSET_LEN <= b@.len(),
        ensures
            x.encoding() == b@.subrange(pos as int, pos + ASSET_LEN),
    {
        let len: usize = b.len();
        assert(pos + ASSET_LEN <= len);
        let x = MantaAsset {
            asset_id: read_u64(b, pos),
            utxo: read_array(b, pos + 8),
            void_number: read_array(b, pos + 40),
            pub_info: MantaAssetPubInfo::decode_at(b, pos + 72),
            priv_info: MantaAssetPrivInfo::decode_at(b, pos + 232),
        };
        assert(x.encoding() =~= b@.subrange(pos as int, pos + ASSET_LEN));
        x
    }

    /// Decodes a coin from the start of `b`. What comes out has yet to pass
    /// [`PendingAsset::accept`].
    pub fn deserialize(b: &[u8]) -> (r: Result<PendingAsset, MantaError>)
        ensures
            r is Err <==> b@.len() < ASSET_LEN,
            r matches Err(e) ==> e == MantaError::ShortRead,
            r matches Ok(p) ==> p@.encoding() == b@.subrange(0, ASSET_LEN as int),
    {
        if b.len() < ASSET_LEN {
            Err(MantaError::ShortRead)
        } else {
            Ok(PendingAsset { asset: Self::decode_at(b, 0) })
        }
    }
}

/// Coins with the same bytes are the same.
pub proof fn lemma_asset_encoding_injective(x: MantaAsset, y: MantaAsset)
    requires
        x.encoding() == y.encoding(),
    ensures
        x == y,
{
    let xa = le_bytes(x.asset_id) + x.utxo@ + x.void_number@ + x.pub_info.encoding();
    let ya = le_bytes(y.asset_id) + y.utxo@ + y.void_number@ + y.pub_info.encoding();
    lemma_split(xa, x.priv_info.encoding(), ya, y.priv_info.encoding());
    lemma_split(
        le_bytes(x.asset_id) + x.utxo@ + x.void_number@,
        x.pub_info.encoding(),
        le_bytes(y.asset_id) + y.utxo@ + y.void_number@,
        y.pub_info.encoding(),
    );
    lemma_split_array(le_bytes(x.asset_id) + x.utxo@, x.void_number, le_bytes(y.asset_id) + y.utxo@, y.void_number);
    lemma_split_array(le_bytes(x.asset_id), x.utxo, le_bytes(y.asset_id), y.utxo);
    lemma_le_bytes_injective(x.asset_id, y.asset_id);
    lemma_pub_info_encoding_injective(x.pub_info, y.pub_info);
    lemma_priv_info_encoding_injective(x.priv_info, y.priv_info);
}

/// What the consistency check makes of a decoded coin.
pub open spec fn accepted_asset(a: MantaAsset, k_commit: Seq<u8>, utxo_commit: Seq<u8>) -> Result<MantaAsset, MantaError> {
    if a.is_sane(k_commit, utxo_commit) {
        Ok(a)
    } else {
        Err(MantaError::SanityCheckFail)
    }
}

/// A decoded coin that has not yet passed its consistency check.
pub struct PendingAsset {
    asset: MantaAsset,
}

impl View for PendingAsset {
    type V = MantaAsset;

    closed spec fn view(&self) -> MantaAsset {
        self.asset
    }
}

impl PendingAsset {
    /// The message to commit to, under [`PendingAsset::k_opening`], to
    /// recompute `k`.
    pub fn k_message(&self) -> (m: Vec<u8>)
        ensures
            m@ == self@.k_message_spec(),
    {
        self.asset.k_message()
    }

    pub fn k_opening(&self) -> (r: [u8; 32])
        ensures
            r == self@.pub_info.r,
    {
        self.asset.pub_info.r
    }

    /// The message to commit to, under [`PendingAsset::utxo_opening`], to
    /// recompute `utxo`.
    pub fn utxo_message(&self) -> (m: Vec<u8>)
        ensures
            m@ == self@.utxo_message_spec(),
    {
        self.asset.utxo_message()
    }

    pub fn utxo_opening(&self) -> (s: [u8; 32])
        ensures
            s == self@.pub_info.s,
    {
        self.asset.pub_info.s
    }

    /// The coin, if it passes [`MantaAsset::sanity`] with the recomputed
    /// commitments; [`MantaError::SanityCheckFail`] if it does not.
    pub fn accept(self, k_commit: &[u8; 32], utxo_commit: &[u8; 32]) -> (r: Result<MantaAsset, MantaError>)
        ensures
            r == accepted_asset(self@, k_commit@, utxo_commit@),
    {
        if self.asset.sanity(k_commit, utxo_commit) {
            Ok(self.asset)
        } else {
            Err(MantaError::SanityCheckFail)
        }
    }
}

/// A consistent coin comes back from its own bytes: they are long enough, the
/// only coin they decode to is the coin itself, and it is accepted with the
/// commitments that it was consistent with.
pub proof fn lemma_asset_round_trip(x: MantaAsset, y: MantaAsset, k_commit: Seq<u8>, utxo_commit: Seq<u8>)
    requires
        x.is_sane(k_commit, utxo_commit),
        y.encoding() == x.encoding().subrange(0, ASSET_LEN as int),
    ensures
        x.encoding().len() == ASSET_LEN,
        y == x,
        accepted_asset(y, k_commit, utxo_commit) == Ok::<MantaAsset, MantaError>(x),
{
    assert(x.encoding().subrange(0, ASSET_LEN as int) =~= x.encoding());
    lemma_asset_encoding_injective(x, y);
}

/// The bytes of an inconsistent coin decode to that coin, which is then
/// refused with [`MantaError::SanityCheckFail`].
pub proof fn lemma_asset_decode_rejects(x: MantaAsset, y: MantaAsset, k_commit: Seq<u8>, utxo_commit: Seq<u8>)
    requires
        !x.is_sane(k_commit, utxo_commit),
        y.encoding() == x.encoding().subrange(0, ASSET_LEN as int),
    ensures
        x.encoding().len() == ASSET_LEN,
        accepted_asset(y, k_commit, utxo_commit) == Err::<MantaAsset, MantaError>(
            MantaError::SanityCheckFail,
        ),
{
    assert(x.encoding().subrange(0, ASSET_LEN as int) =~= x.encoding());
    lemma_asset_encoding_injective(x, y);
}

impl MantaAssetShieldedAddress {
    /// `asset_id ‖ k ‖ s ‖ r ‖ ecpk`.
    pub open spec fn encoding(&self) -> Seq<u8> {
        le_bytes(self.asset_id) + self.k@ + self.s@ + self.r@ + self.ecpk@
    }

    pub fn write_to(&self, out: &mut Vec<u8>)
        ensures
            final(out)@ == old(out)@ + self.encoding(),
    {
        let ghost start = out@;
        push_u64(out, self.asset_id);
        push_array(out, &self.k);
        push_array(out, &self.s);
        push_array(out, &self.r);
        push_array(out, &self.ecpk);
        assert(out@ =~= start + self.encoding());
    }

    pub fn serialize(&self) -> (b: Vec<u8>)
        ensures
            b@ == self.encoding(),
    {
        let mut out: Vec<u8> = Vec::new();
        self.write_to(&mut out);
        assert(out@ =~= self.encoding());
        out
    }

    pub fn decode_at(b: &[u8], pos: usize) -> (x: Self)
        requires
            pos + SHIELDED_ADDRESS_LEN <= b@.len(),
        ensures
            x.encoding() == b@.subrange(pos as int, pos + SHIELDED_ADDRESS_LEN),
    {
        let len: usize = b.len();
        assert(pos + SHIELDED_ADDRESS_LEN <= len);
        let x = MantaAssetShieldedAddress {
            asset_id: read_u64(b, pos),
            k: read_array(b, pos + 8),
            s: read_array(b, pos + 40),
            r: read_array(b, pos + 72),
            ecpk: read_array(b, pos + 104),
        };
        assert(x.encoding() =~= b@.subrange(pos as int, pos + SHIELDED_ADDRESS_LEN));
        x
    }

    pub fn deserialize(b: &[u8]) -> (r: Result<Self, MantaError>)
        ensures
            r is Err <==> b@.len() < SHIELDED_ADDRESS_LEN,
            r matches Err(e) ==> e == MantaError::ShortRead,
            r matches Ok(x) ==> x.encoding() == b@.subrange(0, SHIELDED_ADDRESS_LEN as int),
    {
        if b.len() < SHIELDED_ADDRESS_LEN {
            Err(MantaError::ShortRead)
        } else {
            Ok(Self::decode_at(b, 0))
        }
    }
}

/// Shielded addresses with the same bytes are the same.
pub proof fn lemma_shielded_address_encoding_injective(
    x: MantaAssetShieldedAddress,
    y: MantaAssetShieldedAddress,
)
    requires
        x.encoding() == y.encoding(),
    ensures
        x == y,
{
    lemma_split_array(
        le_bytes(x.asset_id) + x.k@ + x.s@ + x.r@,
        x.ecpk,
        le_bytes(y.asset_id) + y.k@ + y.s@ + y.r@,
        y.ecpk,
    );
    lemma_split_array(le_bytes(x.asset_id) + x.k@ + x.s@, x.r, le_bytes(y.asset_id) + y.k@ + y.s@, y.r);
    lemma_split_array(le_bytes(x.asset_id) + x.k@, x.s, le_bytes(y.asset_id) + y.k@, y.s);
    lemma_split_array(le_bytes(x.asset_id), x.k, le_bytes(y.asset_id), y.k);
    lemma_le_bytes_injective(x.asset_id, y.asset_id);
}

impl MantaAssetReceiverSpendingInfo {
    /// `asset_id ‖ pk ‖ sk ‖ rho ‖ void_number ‖ ecsk`.
    pub open spec fn encoding(&self) -> Seq<u8> {
        le_bytes(self.asset_id) + self.pk@ + self.sk@ + self.rho@ + self.void_number@
            + self.ecsk@
    }

    pub fn write_to(&self, out: &mut Vec<u8>)
        ensures
            final(out)@ == old(out)@ + self.encoding(),
    {
        let ghost start = out@;
        push_u64(out, self.asset_id);
        push_array(out, &self.pk);
        push_array(out, &self.sk);
        push_array(out, &self.rho);
        push_array(out, &self.void_number);
        push_array(out, &self.ecsk);
        assert(out@ =~= start + self.encoding());
    }

    pub fn serialize(&self) -> (b: Vec<u8>)
        ensures
            b@ == self.encoding(),
    {
        let mut out: Vec<u8> = Vec::new();
        self.write_to(&mut out);
        assert(out@ =~= self.encoding());
        out
    }

    pub fn decode_at(b: &[u8], pos: usize) -> (x: Self)
        requires
            pos + SPENDING_INFO_LEN <= b@.len(),
        ensures
            x.encoding() == b@.subrange(pos as int, pos + SPENDING_INFO_LEN),
    {
        let len: usize = b.len();
        assert(pos + SPENDING_INFO_LEN <= len);
        let x = MantaAssetReceiverSpendingInfo {
            asset_id: read_u64(b, pos),
            pk: read_array(b, pos + 8),
            sk: read_array(b, pos + 40),
            rho: read_array(b, pos + 72),
            void_number: read_array(b, pos + 104),
            ecsk: read_array(b, pos + 136),
        };
        assert(x.encoding() =~= b@.subrange(pos as int, pos + SPENDING_INFO_LEN));
        x
    }

    pub fn deserialize(b: &[u8]) -> (r: Result<Self, MantaError>)
        ensures
            r is Err <==> b@.len() < SPENDING_INFO_LEN,
            r matches Err(e) ==> e == MantaError::ShortRead,
            r matches Ok(x) ==> x.encoding() == b@.subrange(0, SPENDING_INFO_LEN as int),
    {
        if b.len() < SPENDING_INFO_LEN {
            Err(MantaError::ShortRead)
        } else {
            Ok(Self::decode_at(b, 0))
        }
    }
}

/// Spending information with the same bytes is the same.
pub proof fn lemma_spending_info_encoding_injective(
    x: MantaAssetReceiverSpendingInfo,
    y: MantaAssetReceiverSpendingInfo,
)
    requires
        x.encoding() == y.encoding(),
    ensures
        x == y,
{
    let xa = le_bytes(x.asset_id) + x.pk@ + x.sk@ + x.rho@;
    let ya = le_bytes(y.asset_id) + y.pk@ + y.sk@ + y.rho@;
    lemma_split_array(xa + x.void_number@, x.ecsk, ya + y.void_number@, y.ecsk);
    lemma_split_array(xa, x.void_number, ya, y.void_number);
    lemma_split_array(le_bytes(x.asset_id) + x.pk@ + x.sk@, x.rho, le_bytes(y.asset_id) + y.pk@ + y.sk@, y.rho);
    lemma_split_array(le_bytes(x.asset_id) + x.pk@, x.sk, le_bytes(y.asset_id) + y.pk@, y.sk);
    lemma_split_array(le_bytes(x.asset_id), x.pk, le_bytes(y.asset_id), y.pk);
    lemma_le_bytes_injective(x.asset_id, y.asset_id);
}

impl MantaAssetFullReceiver {
    /// `shielded_address ‖ spending_info`.
    pub open spec fn encoding(&self) -> Seq<u8> {
        self.shielded_address.encoding() + self.spending_info.encoding()
    }

    pub fn serialize(&self) -> (b: Vec<u8>)
        ensures
            b@ == self.encoding(),
    {
        let mut out: Vec<u8> = Vec::new();
        self.shielded_address.write_to(&mut out);
        self.spending_info.write_to(&mut out);
        assert(out@ =~= self.encoding());
        out
    }

    /// Decodes a receiver from the start of `b`. What comes out has yet to
    /// pass [`PendingReceiver::accept`].
    pub fn deserialize(b: &[u8]) -> (r: Result<PendingReceiver, MantaError>)
        ensures
            r is Err <==> b@.len() < FULL_RECEIVER_LEN,
            r matches Err(e) ==> e == MantaError::ShortRead,
            r matches Ok(p) ==> p@.encoding() == b@.subrange(0, FULL_RECEIVER_LEN as int),
    {
        if b.len() < FULL_RECEIVER_LEN {
            Err(MantaError::ShortRead)
        } else {
            let x = MantaAssetFullReceiver {
                shielded_address: MantaAssetShieldedAddress::decode_at(b, 0),
                spending_info: MantaAssetReceiverSpendingInfo::decode_at(b, SHIELDED_ADDRESS_LEN),
            };
            assert(x.encoding() =~= b@.subrange(0, FULL_RECEIVER_LEN as int));
            Ok(PendingReceiver { receiver: x })
        }
    }
}

/// Receivers with the same bytes are the same.
pub proof fn lemma_full_receiver_encoding_injective(x: MantaAssetFullReceiver, y: MantaAssetFullReceiver)
    requires
        x.encoding() == y.encoding(),
    ensures
        x == y,
{
    lemma_split(
        x.shielded_address.encoding(),
        x.spending_info.encoding(),
        y.shielded_address.encoding(),
        y.spending_info.encoding(),
    );
    lemma_shielded_address_encoding_injective(x.shielded_address, y.shielded_address);
    lemma_spending_info_encoding_injective(x.spending_info, y.spending_info);
}

/// What the consistency check makes of a decoded receiver.
pub open spec fn accepted_receiver(f: MantaAssetFullReceiver, k_commit: Seq<u8>) -> Result<MantaAssetFullReceiver, MantaError> {
    if f.is_sane(k_commit) {
        Ok(f)
    } else {
        Err(MantaError::SanityCheckFail)
    }
}

/// A decoded receiver that has not yet passed its consistency check.
pub struct PendingReceiver {
    receiver: MantaAssetFullReceiver,
}

impl View for PendingReceiver {
    type V = MantaAssetFullReceiver;

    closed spec fn view(&self) -> MantaAssetFullReceiver {
        self.receiver
    }
}

impl PendingReceiver {
    /// The message to commit to, under [`PendingReceiver::k_opening`], to
    /// recompute the address's `k`.
    pub fn k_message(&self) -> (m: Vec<u8>)
        ensures
            m@ == self@.k_message_spec(),
    {
        self.receiver.k_message()
    }

    pub fn k_opening(&self) -> (r: [u8; 32])
        ensures
            r == self@.shielded_address.r,
    {
        self.receiver.shielded_address.r
    }

    /// The receiver, if it passes [`MantaAssetFullReceiver::sanity`] with the
    /// recomputed commitment; [`MantaError::SanityCheckFail`] if it does not.
    pub fn accept(self, k_commit: &[u8; 32]) -> (r: Result<MantaAssetFullReceiver, MantaError>)
        ensures
            r == accepted_receiver(self@, k_commit@),
    {
        if self.receiver.sanity(k_commit) {
            Ok(self.receiver)
        } else {
            Err(MantaError::SanityCheckFail)
        }
    }
}

/// A consistent receiver comes back from its own bytes: they are long
/// enough, the only receiver they decode to is the receiver itself, and it
/// is accepted with the commitment that it was consistent with.
pub proof fn lemma_full_receiver_round_trip(
    x: MantaAssetFullReceiver,
    y: MantaAssetFullReceiver,
    k_commit: Seq<u8>,
)
    requires
        x.is_sane(k_commit),
        y.encoding() == x.encoding().subrange(0, FULL_RECEIVER_LEN as int),
    ensures
        x.encoding().len() == FULL_RECEIVER_LEN,
        y == x,
        accepted_receiver(y, k_commit) == Ok::<MantaAssetFullReceiver, MantaError>(x),
{
    assert(x.encoding().subrange(0, FULL_RECEIVER_LEN as int) =~= x.encoding());
    lemma_full_receiver_encoding_injective(x, y);
}

/// The bytes of an inconsistent receiver decode to that receiver, which is
/// then refused with [`MantaError::SanityCheckFail`].
pub proof fn lemma_full_receiver_decode_rejects(
    x: MantaAssetFullReceiver,
    y: MantaAssetFullReceiver,
    k_commit: Seq<u8>,
)
    requires
        !x.is_sane(k_commit),
        y.encoding() == x.encoding().subrange(0, FULL_RECEIVER_LEN as int),
    ensures
        x.encoding().len() == FULL_RECEIVER_LEN,
        accepted_receiver(y, k_commit) == Err::<MantaAssetFullReceiver, MantaError>(
            MantaError::SanityCheckFail,
        ),
{
    assert(x.encoding().subrange(0, FULL_RECEIVER_LEN as int) =~= x.encoding());
    lemma_full_receiver_encoding_injective(x, y);
}

impl MantaAssetProcessedReceiver {
    /// `utxo ‖ value ‖ sender_pk ‖ ciphertext ‖ prepared_data`.
    pub open spec fn encoding(&self) -> Seq<u8> {
        self.utxo@ + le_bytes(self.value) + self.sender_pk@ + self.ciphertext@
            + self.prepared_data.encoding()
    }

    pub fn serialize(&self) -> (b: Vec<u8>)
        ensures
            b@ == self.encoding(),
    {
        let mut out: Vec<u8> = Vec::new();
        push_array(&mut out, &self.utxo);
        push_u64(&mut out, self.value);
        push_array(&mut out, &self.sender_pk);
        push_array(&mut out, &self.ciphertext);
        self.prepared_data.write_to(&mut out);
        assert(out@ =~= self.encoding());
        out
    }

    pub fn deserialize(b: &[u8]) -> (r: Result<Self, MantaError>)
        ensures
            r is Err <==> b@.len() < PROCESSED_RECEIVER_LEN,
            r matches Err(e) ==> e == MantaError::ShortRead,
            r matches Ok(x) ==> x.encoding() == b@.subrange(0, PROCESSED_RECEIVER_LEN as int),
    {
        if b.len() < PROCESSED_RECEIVER_LEN {
            Err(MantaError::ShortRead)
        } else {
            let x = MantaAssetProcessedReceiver {
                utxo: read_array(b, 0),
                value: read_u64(b, 32),
                sender_pk: read_array(b, 40),
                ciphertext: read_array(b, 72),
                prepared_data: MantaAssetShieldedAddress::decode_at(b, 88),
            };
            assert(x.encoding() =~= b@.subrange(0, PROCESSED_RECEIVER_LEN as int));
            Ok(x)
        }
    }
}

/// Processed receivers with the same bytes are the same.
pub proof fn lemma_processed_receiver_encoding_injective(
    x: MantaAssetProcessedReceiver,
    y: MantaAssetProcessedReceiver,
)
    requires
        x.encoding() == y.encoding(),
    ensures
        x == y,
{
    let xa = x.utxo@ + le_bytes(x.value) + x.sender_pk@;
    let ya = y.utxo@ + le_bytes(y.value) + y.sender_pk@;
    lemma_split(xa + x.ciphertext@, x.prepared_data.encoding(), ya + y.ciphertext@, y.prepared_data.encoding());
    lemma_split_array(xa, x.ciphertext, ya, y.ciphertext);
    lemma_split_array(x.utxo@ + le_bytes(x.value), x.sender_pk, y.utxo@ + le_bytes(y.value), y.sender_pk);
    lemma_split(x.utxo@, le_bytes(x.value), y.utxo@, le_bytes(y.value));
    lemma_array_from_view(x.utxo, y.utxo);
    lemma_le_bytes_injective(x.value, y.value);
    lemma_shielded_address_encoding_injective(x.prepared_data, y.prepared_data);
}

} // verus!
