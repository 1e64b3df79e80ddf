use vstd::prelude::*;
use vstd::std_specs::iter::IteratorSpec;
use crate::error::Error;
use crate::model::Status;

verus! {

broadcast use vstd::std_specs::slice::axiom_spec_slice_iter;

/// An amount of bitcoin, counted in satoshis.
#[derive(Debug, Clone, Copy, PartialEq, Eq, Structural)]
pub struct BitcoinAmount {
    /// The amount in satoshis (1 BTC = 100 000 000 satoshis).
    pub satoshi: u64,
}

impl BitcoinAmount {
    /// The amount of the given number of satoshis.
    pub fn from_satoshi(satoshi: u64) -> (r: Self)
        ensures
            r.satoshi == satoshi,
    {
        BitcoinAmount { satoshi }
    }
}

/// An unspent transaction output as Blockstream reports it.
#[derive(Debug, Clone)]
pub struct Utxo {
    /// Status of the transaction that created it.
    pub status: Status,
    /// Id of that transaction.
    pub txid: String,
    /// Value in satoshis.
    pub value: u64,
    /// Index of the output in that transaction.
    pub vout: u32,
}

/// A list of unspent transaction outputs.
#[derive(Debug, Clone)]
pub struct Utxos(pub Vec<Utxo>);

/// The sum of the values of the outputs, in satoshis.
pub open spec fn total_value(s: Seq<Utxo>) -> nat
    decreases s.len(),
{
    if s.len() == 0 {
        0
    } else {
        total_value(s.drop_last()) + s.last().value as nat
    }
}

/// The total of a prefix is at most the total of the whole.
pub proof fn lemma_total_value_prefix(s: Seq<Utxo>, i: int)
    requires
        0 <= i <= s.len(),
    ensures
        total_value(s.take(i)) <= total_value(s),
    decreases s.len() - i,
{
    if i < s.len() {
        lemma_total_value_prefix(s, i + 1);
        assert(s.take(i + 1).drop_last() =~= s.take(i));
    } else {
        assert(s.take(i) =~= s);
    }
}

impl Default for Utxo {
    fn default() -> (r: Self)
        ensures
            r.status@.confirmed == false,
            r.status@.block_height == 0,
            r.status@.block_hash == Seq::<char>::empty(),
            r.status@.block_time == 0,
            r.txid@ == Seq::<char>::empty(),
            r.value == 0,
            r.vout == 0,
    {
        Utxo { status: Status::default(), txid: String::new(), value: 0, vout: 0 }
    }
}

impl Default for Utxos {
    fn default() -> (r: Self)
        ensures
            r.0@ == Seq::<Utxo>::empty(),
    {
        Utxos(Vec::new())
    }
}

impl Utxos {
    /// An empty list.
    pub fn new() -> (r: Self)
        ensures
            r.0@ == Seq::<Utxo>::empty(),
    {
        Utxos(Vec::new())
    }

    /// Whether the list is empty.
    pub fn is_empty(&self) -> (r: bool)
        ensures
            r == (self.0@.len() == 0),
    {
        self.0.is_empty()
    }

    /// An iterator over the outputs, in order.
    pub fn iter(&self) -> (r: std::slice::Iter<'_, Utxo>)
        ensures
            r.remaining() == self.0@.as_ref(),
    {
        self.0.iter()
    }

    /// The sum of the values, as an amount.
    pub fn sum(&self) -> (r: Result<BitcoinAmount, Error>)
        requires
            total_value(self.0@) <= u64::MAX,
        ensures
            r matches Ok(a) && a.satoshi == total_value(self.0@),
    {
        let mut satoshis: u64 = 0;
        let n: usize = self.0.len();
        let mut i: usize = 0;
        while i < n
            invariant
                i <= n,
                n == self.0@.len(),
                total_value(self.0@) <= u64::MAX,
                satoshis == total_value(self.0@.take(i as int)),
            decreases n - i,
        {
            proof {
                lemma_total_value_prefix(self.0@, i + 1);
                assert(self.0@.take(i + 1).drop_last() =~= self.0@.take(i as int));
            }
            satoshis = satoshis + self.0[i].value;
            i = i + 1;
        }
        assert(self.0@.take(n as int) =~= self.0@);
        let confirmed_balance = BitcoinAmount { satoshi: satoshis };
        Ok(confirmed_balance)
    }

    /// Appends an output.
    pub fn push(&mut self, utxo: Utxo)
        ensures
            final(self).0@ == old(self).0@.push(utxo),
    {
        self.0.push(utxo);
    }
}

} // verus!
