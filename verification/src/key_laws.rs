//! What holds between making an account key and taking it apart.

use vstd::prelude::*;
use crate::hex_text::{hex_bytes, is_hex_text};
use crate::magnitude::{
    be_value, is_minimal, lemma_be_value_bound, lemma_be_value_concat, lemma_div_bound,
    lemma_div_mod_unique, lemma_leading_byte_bound, lemma_minimal_bytes_len,
    lemma_minimal_bytes_unique, lemma_minimal_bytes_value, lemma_pow256_adds,
    lemma_pow256_monotonic, lemma_pow256_positive, minimal_bytes, pow256,
};
use crate::types::{account_key, key_asset, key_owner, ASSET_ID_WIDTH, MAX_IDENTITY_LEN};

verus! {

/// The pairs of owner and asset id that a key gives back unchanged: the
/// asset id is below `2^96`, the owner's bytes are in shortest form, and
/// either the asset id fills all twelve bytes or the owner is the single
/// byte `0`.
pub open spec fn survives_key(owner: Seq<u8>, asset: nat) -> bool {
    &&& asset < pow256(ASSET_ID_WIDTH as nat)
    &&& is_minimal(owner)
    &&& (asset >= pow256((ASSET_ID_WIDTH - 1) as nat) || owner == seq![0u8])
}

/// An account key is the owner's number shifted left by as many bytes as
/// the asset id's shortest form has, plus the asset id.
pub proof fn lemma_account_key_value(owner: Seq<u8>, asset: nat)
    ensures
        account_key(owner, asset) == be_value(owner) * pow256(minimal_bytes(asset).len())
            + asset,
{
    lemma_be_value_concat(owner, minimal_bytes(asset));
    lemma_minimal_bytes_value(asset);
}

/// The key of an identity and an asset id of no more than twelve bytes has
/// an owner part that is short enough for an identity.
pub proof fn lemma_narrow_asset_key_splits(owner: Seq<u8>, asset: nat)
    requires
        owner.len() <= MAX_IDENTITY_LEN,
        asset < pow256(ASSET_ID_WIDTH as nat),
    ensures
        key_owner(account_key(owner, asset)).len() <= MAX_IDENTITY_LEN,
{
    let width = ASSET_ID_WIDTH as nat;
    let most = MAX_IDENTITY_LEN as nat;
    let key = account_key(owner, asset);
    let all = owner + minimal_bytes(asset);
    lemma_minimal_bytes_len(asset, width);
    lemma_be_value_bound(all);
    lemma_pow256_monotonic(all.len(), most + width);
    lemma_pow256_adds(most, width);
    lemma_pow256_positive(width);
    lemma_div_bound(key, pow256(width), pow256(most));
    lemma_minimal_bytes_len(key / pow256(width), most);
}

/// Taking apart the key made from an owner and an asset id gives back that
/// owner and that asset id exactly for the pairs that `survives_key`
/// describes.
pub proof fn lemma_split_of_new(owner: Seq<u8>, asset: nat)
    ensures
        (key_owner(account_key(owner, asset)) == owner && key_asset(account_key(owner, asset))
            == asset) <==> survives_key(owner, asset),
{
    let width = ASSET_ID_WIDTH as nat;
    let p = pow256(width);
    let a = minimal_bytes(asset);
    let m = a.len();
    let v = be_value(owner);
    let key = account_key(owner, asset);
    lemma_account_key_value(owner, asset);
    lemma_minimal_bytes_value(asset);
    lemma_pow256_positive(width);
    lemma_pow256_positive(m);
    if survives_key(owner, asset) {
        if asset >= pow256((width - 1) as nat) {
            lemma_minimal_bytes_len(asset, width);
            lemma_minimal_bytes_len(asset, (width - 1) as nat);
            assert(m == width);
            assert(p * v == v * p) by (nonlinear_arith);
            lemma_div_mod_unique(key as int, p as int, v as int, asset as int);
            lemma_minimal_bytes_unique(owner);
        } else {
            assert(owner.drop_last().len() == 0);
            assert(be_value(owner.drop_last()) == 0);
            assert(v == 0);
            assert(0 * pow256(m) == 0);
            assert(p * 0 == 0);
            lemma_div_mod_unique(key as int, p as int, 0, asset as int);
        }
    }
    if key_owner(key) == owner && key_asset(key) == asset {
        lemma_minimal_bytes_value(key / p);
        assert(asset < p) by (nonlinear_arith)
            requires
                asset == key % p,
                p >= 1,
        ;
        if asset < pow256((width - 1) as nat) {
            lemma_minimal_bytes_len(asset, (width - 1) as nat);
            lemma_be_value_bound(a);
            if v >= 1 {
                let rest = (width - m) as nat;
                lemma_pow256_adds(m, rest);
                lemma_pow256_positive((rest - 1) as nat);
                assert(pow256(rest) >= 256);
                assert(key < v * p) by (nonlinear_arith)
                    requires
                        key == v * pow256(m) + asset,
                        asset < pow256(m),
                        p == pow256(m) * pow256(rest),
                        pow256(rest) >= 256,
                        v >= 1,
                ;
                lemma_div_bound(key, p, v);
            }
            assert(owner =~= seq![0u8]);
        }
    }
}

/// Zero bytes in front of an owner's bytes do not show in the key: the
/// owner shares its accounts with the owner without them.
pub proof fn lemma_leading_zero_of_owner_is_lost(owner: Seq<u8>, asset: nat)
    ensures
        account_key(seq![0u8] + owner, asset) == account_key(owner, asset),
{
    let zero = seq![0u8];
    lemma_account_key_value(zero + owner, asset);
    lemma_account_key_value(owner, asset);
    lemma_be_value_concat(zero, owner);
    assert(zero.drop_last().len() == 0);
    assert(be_value(zero.drop_last()) == 0);
    assert(be_value(zero) == 0);
    assert(0 * pow256(owner.len()) == 0);
}

/// An asset id written as twenty-four hexadecimal digits, the first two not
/// both `0`, comes back from any account key whose owner is in shortest
/// form.
pub proof fn lemma_full_width_hex_survives(owner: Seq<u8>, hex: Seq<char>)
    requires
        is_hex_text(hex),
        hex.len() == 2 * ASSET_ID_WIDTH,
        hex_bytes(hex)[0] != 0,
        is_minimal(owner),
    ensures
        survives_key(owner, be_value(hex_bytes(hex))),
{
    let bytes = hex_bytes(hex);
    lemma_be_value_bound(bytes);
    lemma_leading_byte_bound(bytes);
}

/// What an asset id of more than twelve bytes does to a key: the asset part
/// that comes back is the id modulo `2^96`, and the bytes above that have
/// been added into the owner part.
pub proof fn lemma_wide_asset_is_cut(owner: Seq<u8>, asset: nat)
    requires
        asset >= pow256(ASSET_ID_WIDTH as nat),
    ensures
        key_asset(account_key(owner, asset)) == asset % pow256(ASSET_ID_WIDTH as nat),
        key_asset(account_key(owner, asset)) != asset,
        key_owner(account_key(owner, asset)) == minimal_bytes(
            be_value(owner) * pow256((minimal_bytes(asset).len() - ASSET_ID_WIDTH) as nat) + asset
                / pow256(ASSET_ID_WIDTH as nat),
        ),
{
    let width = ASSET_ID_WIDTH as nat;
    let p = pow256(width);
    let m = minimal_bytes(asset).len();
    let v = be_value(owner);
    let key = account_key(owner, asset);
    lemma_account_key_value(owner, asset);
    lemma_pow256_positive(width);
    lemma_minimal_bytes_len(asset, width);
    let extra = (m - width) as nat;
    lemma_pow256_adds(width, extra);
    let q = asset / p;
    let r = asset % p;
    assert(asset == p * q + r && 0 <= r < p) by (nonlinear_arith)
        requires
            p >= 1,
            q == asset / p,
            r == asset % p,
    ;
    assert(key == p * (v * pow256(extra) + q) + r) by (nonlinear_arith)
        requires
            key == v * pow256(m) + asset,
            pow256(m) == p * pow256(extra),
            asset == p * q + r,
    ;
    lemma_div_mod_unique(key as int, p as int, (v * pow256(extra) + q) as int, r as int);
}

} // verus!
