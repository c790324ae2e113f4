//! A wallet that holds an address and a balance in base units.

use crate::bytes::{be_bytes, push_be_u64};
use crate::clock::unix_time;
use crate::crypto::hex::{hex_encode, hex_text};
use crate::crypto::sha512::{sha512, sha512_digest};
use crate::text::{decimal, decimal_text, padded, padded_text};
use vstd::prelude::*;
use vstd::string::StringExecFns;

verus! {

/// Base units in one coin.
pub const COIN: u64 = 100_000_000;

#[derive(Debug, Clone)]
pub struct Wallet {
    pub address: String,
    pub balance: u64,
}

impl Wallet {
    /// The address derived from a number of seconds: the SHA-512 of its
    /// eight big-endian bytes as hexadecimal text.
    pub open spec fn address_of(seconds: u64) -> Seq<char> {
        hex_text(sha512(be_bytes(seconds))@)
    }

    /// The balance in coins with eight decimals.
    pub open spec fn balance_text(&self) -> Seq<char> {
        decimal_text((self.balance / COIN) as nat) + "."@ + padded_text(
            (self.balance % COIN) as nat,
            8,
        )
    }

    /// An empty wallet whose address is derived from `seconds`.
    pub fn derived_from(seconds: u64) -> (wallet: Self)
        ensures
            wallet.address@ == Self::address_of(seconds),
            wallet.balance == 0,
    {
        let mut bytes: Vec<u8> = Vec::new();
        push_be_u64(&mut bytes, seconds);
        assert(bytes@ =~= be_bytes(seconds));
        let digest = sha512_digest(bytes.as_slice());
        Wallet { address: hex_encode(digest.as_slice()), balance: 0 }
    }

    /// An empty wallet whose address is derived from the current time.
    pub fn new() -> (wallet: Self)
        ensures
            wallet.balance == 0,
            exists|seconds: u64| wallet.address@ == #[trigger] Self::address_of(seconds),
    {
        let now: u64 = unix_time();
        let wallet = Self::derived_from(now);
        assert(wallet.address@ == Self::address_of(now));
        wallet
    }

    /// Credits the wallet with an amount in base units.
    pub fn credit(&mut self, amount: u64)
        requires
            old(self).balance + amount <= u64::MAX,
        ensures
            final(self).balance == old(self).balance + amount,
            final(self).address == old(self).address,
    {
        self.balance = self.balance + amount;
    }

    /// Credits the wallet, or leaves it as it is and gives `None` where the
    /// balance would not fit in 64 bits.
    pub fn checked_credit(&mut self, amount: u64) -> (balance: Option<u64>)
        ensures
            final(self).address == old(self).address,
            old(self).balance + amount <= u64::MAX ==> balance == Some(final(self).balance)
                && final(self).balance == old(self).balance + amount,
            old(self).balance + amount > u64::MAX ==> balance is None && final(self).balance == old(
                self,
            ).balance,
    {
        match self.balance.checked_add(amount) {
            Some(sum) => {
                self.balance = sum;
                Some(sum)
            },
            None => None,
        }
    }

    /// The balance in coins with eight decimals.
    pub fn balance_btp(&self) -> (text: String)
        ensures
            text@ == self.balance_text(),
    {
        let whole = decimal(self.balance / COIN);
        let part = padded(self.balance % COIN, 8);
        whole.concat(".").concat(part.as_str())
    }
}

} // verus!
