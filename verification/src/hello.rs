//! A greeting that takes an account key apart again.

use vstd::prelude::*;
use crate::decimal::grouped_decimal;
use crate::hex_text::{hex_bytes, is_hex_text};
use crate::key_laws::{lemma_full_width_hex_survives, lemma_split_of_new};
use crate::magnitude::{is_minimal, lemma_be_value_bound};
use crate::model::asset_id_of;
use crate::principal_text::principal_text;
use crate::types::{
    account_key, key_asset, key_owner, AccountId, Identity, UniqueAssetId, ASSET_ID_WIDTH,
};

verus! {

/// The asset id that the greeting uses.
pub open spec fn hello_asset() -> nat {
    asset_id_of("F94E2AD9DD5CBBC041430001"@)
}

/// The greeting for an identity: the owner and the asset id that come back
/// out of the account key of that identity and the greeting's asset.
pub open spec fn hello_text(principal: Seq<u8>) -> Seq<char> {
    let key = account_key(principal, hello_asset());
    "Principal: "@ + principal_text(key_owner(key)) + " "@ + grouped_decimal(key_asset(key))
}

/// The greeting's asset id is written in well-formed hexadecimal, fills
/// twelve bytes, and its first byte is not zero.
pub proof fn lemma_hello_asset_is_full_width()
    ensures
        is_hex_text("F94E2AD9DD5CBBC041430001"@),
        hex_bytes("F94E2AD9DD5CBBC041430001"@).len() == ASSET_ID_WIDTH,
        hex_bytes("F94E2AD9DD5CBBC041430001"@)[0] != 0,
{
    reveal_strlit("F94E2AD9DD5CBBC041430001");
    let s = "F94E2AD9DD5CBBC041430001"@;
    assert(s.len() == 24);
    assert(is_hex_text(s));
}

/// The greeting gives an identity in shortest form back as it was, with the
/// greeting's asset id.
pub proof fn lemma_hello_gives_the_caller_back(principal: Seq<u8>)
    requires
        is_minimal(principal),
    ensures
        hello_text(principal) == "Principal: "@ + principal_text(principal) + " "@
            + grouped_decimal(hello_asset()),
{
    lemma_hello_asset_is_full_width();
    lemma_full_width_hex_survives(principal, "F94E2AD9DD5CBBC041430001"@);
    lemma_split_of_new(principal, hello_asset());
}

/// Makes the account key of `principal_id` and the greeting's asset, takes
/// it apart, and names the parts.
pub fn hello_world(principal_id: &Identity) -> (r: String)
    ensures
        r@ == hello_text(principal_id@),
{
    let unique_asset_id_hex = "F94E2AD9DD5CBBC041430001";
    proof {
        lemma_hello_asset_is_full_width();
    }
    let unique_asset_id = match UniqueAssetId::parse(unique_asset_id_hex) {
        Ok(id) => id,
        Err(_) => unreached(),
    };
    proof {
        lemma_be_value_bound(hex_bytes(unique_asset_id_hex@));
    }
    let account_id = AccountId::new(principal_id, &unique_asset_id);
    let parts = account_id.split();
    let mut text = String::from_str("Principal: ");
    text.append(parts.0.to_text().as_str());
    text.append(" ");
    text.append(parts.1.to_string().as_str());
    text
}

} // verus!
