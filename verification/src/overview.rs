use vstd::prelude::*;
use crate::error::Error;
use crate::model::{BTransaction, InputModel, OutputModel, TransactionModel, texts};
use crate::ordering::{is_stable_order, stable_order_by_key};
use crate::status::rfc2822_text;

verus! {

broadcast use vstd::string::to_string_from_display_ensures_for_str;

/// A line of the transaction history of a wallet.
#[derive(Debug, Clone)]
pub struct OverviewRow {
    /// The transaction id.
    pub txid: String,
    /// Satoshis paid to the wallet's addresses by the outputs.
    pub received_satoshi: u64,
    /// Satoshis spent from the wallet's addresses by the inputs.
    pub sent_satoshi: u64,
    /// Whether more was received than sent.
    pub incoming: bool,
    /// The difference between received and sent, in satoshis.
    pub net_satoshi: u64,
    /// The wallet address listed on this line.
    pub owner_address: String,
    /// "Confirmed" or "Pending Confirmation".
    pub status: String,
    /// The block time as an RFC 2822 date, empty when unconfirmed.
    pub timestamp: String,
}

/// The transactions fetched for one address, each paired with the address.
pub open spec fn tagged(txs: Seq<TransactionModel>, address: Seq<char>) -> Seq<(TransactionModel, Seq<char>)> {
    txs.map_values(|t: TransactionModel| (t, address))
}

/// The plain values of the transactions fetched for each address.
pub open spec fn fetched_models(fetched: Seq<Vec<BTransaction>>) -> Seq<Seq<TransactionModel>> {
    fetched.map_values(|v: Vec<BTransaction>| v@.map_values(|t: BTransaction| t@))
}

/// All fetched transactions, address by address, each with its address.
pub open spec fn flat(addresses: Seq<Seq<char>>, fetched: Seq<Seq<TransactionModel>>) -> Seq<
    (TransactionModel, Seq<char>),
>
    decreases fetched.len(),
{
    if fetched.len() == 0 || addresses.len() == 0 {
        Seq::empty()
    } else {
        flat(addresses.drop_last(), fetched.drop_last()) + tagged(fetched.last(), addresses.last())
    }
}

/// Some transaction of `d` has the id `txid`.
pub open spec fn seen_txid(d: Seq<(TransactionModel, Seq<char>)>, txid: Seq<char>) -> bool {
    exists|k: int| 0 <= k < d.len() && d[k].0.txid == txid
}

/// The transactions in order, each kept only the first time its id occurs
/// (with the address it was fetched for).
pub open spec fn first_by_txid(s: Seq<(TransactionModel, Seq<char>)>) -> Seq<(TransactionModel, Seq<char>)>
    decreases s.len(),
{
    if s.len() == 0 {
        Seq::empty()
    } else {
        let d = first_by_txid(s.drop_last());
        if seen_txid(d, s.last().0.txid) {
            d
        } else {
            d.push(s.last())
        }
    }
}

/// Satoshis paid by the outputs to any of the addresses.
pub open spec fn received_of(vout: Seq<OutputModel>, owners: Seq<Seq<char>>) -> nat
    decreases vout.len(),
{
    if vout.len() == 0 {
        0
    } else {
        received_of(vout.drop_last(), owners) + if owners.contains(vout.last().scriptpubkey_address) {
            vout.last().value as nat
        } else {
            0
        }
    }
}

/// Satoshis spent by the inputs from any of the addresses.
pub open spec fn sent_of(vin: Seq<InputModel>, owners: Seq<Seq<char>>) -> nat
    decreases vin.len(),
{
    if vin.len() == 0 {
        0
    } else {
        sent_of(vin.drop_last(), owners) + if owners.contains(vin.last().prevout.scriptpubkey_address) {
            vin.last().prevout.value as nat
        } else {
            0
        }
    }
}

/// The addresses of the kept transactions, in the order they were kept.
pub open spec fn owners_of(u: Seq<(TransactionModel, Seq<char>)>) -> Seq<Seq<char>> {
    u.map_values(|x: (TransactionModel, Seq<char>)| x.1)
}

/// The received and sent totals of every kept transaction fit in 64 bits.
pub open spec fn amounts_fit(u: Seq<(TransactionModel, Seq<char>)>) -> bool {
    forall|k: int|
        0 <= k < u.len() ==> received_of(#[trigger] u[k].0.vout, owners_of(u)) <= u64::MAX
            && sent_of(u[k].0.vin, owners_of(u)) <= u64::MAX
}

/// The line describes the transaction `tx`, lists `owner` as its address,
/// and counts amounts against the addresses `owners`.
pub open spec fn row_describes(row: OverviewRow, tx: TransactionModel, owner: Seq<char>, owners: Seq<Seq<char>>) -> bool {
    &&& row.txid@ == tx.txid
    &&& row.received_satoshi == received_of(tx.vout, owners)
    &&& row.sent_satoshi == sent_of(tx.vin, owners)
    &&& row.incoming == (row.received_satoshi > row.sent_satoshi)
    &&& row.net_satoshi == if row.incoming {
        row.received_satoshi - row.sent_satoshi
    } else {
        row.sent_satoshi - row.received_satoshi
    }
    &&& row.owner_address@ == owner
    &&& row.status@ == if tx.status.confirmed {
        "Confirmed"@
    } else {
        "Pending Confirmation"@
    }
    &&& row.timestamp@ == if tx.status.confirmed {
        rfc2822_text(tx.status.block_time)
    } else {
        Seq::empty()
    }
}

/// The block times of the kept transactions.
pub open spec fn block_times(u: Seq<(TransactionModel, Seq<char>)>) -> Seq<u32> {
    u.map_values(|x: (TransactionModel, Seq<char>)| x.0.status.block_time)
}

/// The lines are the kept transactions sorted by block time (stably), line
/// `i` listing the address of the `i`-th kept transaction before sorting.
pub open spec fn history_lines(rows: Seq<OverviewRow>, u: Seq<(TransactionModel, Seq<char>)>) -> bool {
    &&& rows.len() == u.len()
    &&& exists|p: Seq<usize>|
        #![trigger is_stable_order(block_times(u), p)]
        is_stable_order(block_times(u), p) && forall|i: int|
            0 <= i < rows.len() ==> row_describes(
                #[trigger] rows[i],
                u[p[i] as int].0,
                u[i].1,
                owners_of(u),
            )
}

/// The kept transactions, given as positions in `fetched`, with their addresses.
pub open spec fn chosen_models(
    chosen: Seq<(usize, usize)>,
    addresses: Seq<Seq<char>>,
    fm: Seq<Seq<TransactionModel>>,
) -> Seq<(TransactionModel, Seq<char>)> {
    chosen.map_values(|c: (usize, usize)| (fm[c.0 as int][c.1 as int], addresses[c.0 as int]))
}

/// Whether the text is one of the list.
fn contains_text(list: &Vec<String>, s: &String) -> (r: bool)
    ensures
        r == texts(list@).contains(s@),
{
    let n: usize = list.len();
    let mut i: usize = 0;
    while i < n
        invariant
            i <= n,
            n == list@.len(),
            forall|k: int| 0 <= k < i ==> list@[k]@ != s@,
        decreases n - i,
    {
        if list[i] == *s {
            assert(texts(list@)[i as int] == s@);
            return true;
        }
        i = i + 1;
    }
    assert forall|k: int| 0 <= k < texts(list@).len() implies texts(list@)[k] != s@ by {
        assert(texts(list@)[k] == list@[k]@);
    }
    false
}

/// Satoshis paid by the outputs to any of the addresses.
fn received_total(tx: &BTransaction, owners: &Vec<String>) -> (r: u64)
    requires
        received_of(tx@.vout, texts(owners@)) <= u64::MAX,
    ensures
        r == received_of(tx@.vout, texts(owners@)),
{
    let ghost v = tx@.vout;
    let n: usize = tx.vout.len();
    let mut total: u64 = 0;
    let mut i: usize = 0;
    while i < n
        invariant
            i <= n,
            n == tx.vout@.len(),
            v == tx@.vout,
            v.len() == n,
            received_of(v, texts(owners@)) <= u64::MAX,
            total == received_of(v.take(i as int), texts(owners@)),
        decreases n - i,
    {
        proof {
            lemma_received_prefix(v, texts(owners@), i + 1);
            assert(v.take(i + 1).drop_last() =~= v.take(i as int));
            assert(v[i as int] == tx.vout@[i as int]@);
        }
        if contains_text(owners, &tx.vout[i].scriptpubkey_address) {
            total = total + tx.vout[i].value;
        }
        i = i + 1;
    }
    assert(v.take(n as int) =~= v);
    total
}

/// Satoshis spent by the inputs from any of the addresses.
fn sent_total(tx: &BTransaction, owners: &Vec<String>) -> (r: u64)
    requires
        sent_of(tx@.vin, texts(owners@)) <= u64::MAX,
    ensures
        r == sent_of(tx@.vin, texts(owners@)),
{
    let ghost v = tx@.vin;
    let n: usize = tx.vin.len();
    let mut total: u64 = 0;
    let mut i: usize = 0;
    while i < n
        invariant
            i <= n,
            n == tx.vin@.len(),
            v == tx@.vin,
            v.len() == n,
            sent_of(v, texts(owners@)) <= u64::MAX,
            total == sent_of(v.take(i as int), texts(owners@)),
        decreases n - i,
    {
        proof {
            lemma_sent_prefix(v, texts(owners@), i + 1);
            assert(v.take(i + 1).drop_last() =~= v.take(i as int));
            assert(v[i as int] == tx.vin@[i as int]@);
        }
        if contains_text(owners, &tx.vin[i].prevout.scriptpubkey_address) {
            total = total + tx.vin[i].prevout.value;
        }
        i = i + 1;
    }
    assert(v.take(n as int) =~= v);
    total
}

/// The received total of a prefix is at most that of the whole.
proof fn lemma_received_prefix(v: Seq<OutputModel>, owners: Seq<Seq<char>>, i: int)
    requires
        0 <= i <= v.len(),
    ensures
        received_of(v.take(i), owners) <= received_of(v, owners),
    decreases v.len() - i,
{
    if i < v.len() {
        lemma_received_prefix(v, owners, i + 1);
        assert(v.take(i + 1).drop_last() =~= v.take(i));
    } else {
        assert(v.take(i) =~= v);
    }
}

/// The sent total of a prefix is at most that of the whole.
proof fn lemma_sent_prefix(v: Seq<InputModel>, owners: Seq<Seq<char>>, i: int)
    requires
        0 <= i <= v.len(),
    ensures
        sent_of(v.take(i), owners) <= sent_of(v, owners),
    decreases v.len() - i,
{
    if i < v.len() {
        lemma_sent_prefix(v, owners, i + 1);
        assert(v.take(i + 1).drop_last() =~= v.take(i));
    } else {
        assert(v.take(i) =~= v);
    }
}

/// Every kept position points at a fetched transaction.
pub open spec fn valid_chosen(chosen: Seq<(usize, usize)>, fm: Seq<Seq<TransactionModel>>) -> bool {
    forall|k: int|
        0 <= k < chosen.len() ==> (#[trigger] chosen[k]).0 < fm.len() && chosen[k].1 < fm[chosen[k].0 as int].len()
}

/// Whether some kept transaction has the id `txid`.
fn txid_seen(
    chosen: &Vec<(usize, usize)>,
    fetched: &Vec<Vec<BTransaction>>,
    txid: &String,
    Ghost(addresses): Ghost<Seq<Seq<char>>>,
) -> (r: bool)
    requires
        valid_chosen(chosen@, fetched_models(fetched@)),
    ensures
        r == seen_txid(chosen_models(chosen@, addresses, fetched_models(fetched@)), txid@),
{
    let ghost fm = fetched_models(fetched@);
    let ghost d = chosen_models(chosen@, addresses, fm);
    let n: usize = chosen.len();
    let mut k: usize = 0;
    while k < n
        invariant
            k <= n,
            n == chosen@.len(),
            fm == fetched_models(fetched@),
            d == chosen_models(chosen@, addresses, fm),
            valid_chosen(chosen@, fm),
            forall|q: int| 0 <= q < k ==> d[q].0.txid != txid@,
        decreases n - k,
    {
        let c = chosen[k];
        assert(c == chosen@[k as int]);
        assert(fm[c.0 as int] == fetched@[c.0 as int]@.map_values(|t: BTransaction| t@));
        assert(d[k as int].0 == fetched@[c.0 as int]@[c.1 as int]@);
        if fetched[c.0][c.1].txid == *txid {
            return true;
        }
        k = k + 1;
    }
    false
}

/// The transactions kept for the history, as positions in `fetched`: each id
/// the first time it occurs; and the address each kept transaction was
/// fetched for.
fn kept_transactions(our_addresses: &Vec<String>, fetched: &Vec<Vec<BTransaction>>) -> (r: (
    Vec<(usize, usize)>,
    Vec<String>,
))
    requires
        fetched@.len() == our_addresses@.len(),
    ensures
        valid_chosen(r.0@, fetched_models(fetched@)),
        chosen_models(r.0@, texts(our_addresses@), fetched_models(fetched@)) == first_by_txid(
            flat(texts(our_addresses@), fetched_models(fetched@)),
        ),
        texts(r.1@) == owners_of(first_by_txid(flat(texts(our_addresses@), fetched_models(fetched@)))),
{
    let ghost addrs = texts(our_addresses@);
    let ghost fm = fetched_models(fetched@);
    let mut chosen: Vec<(usize, usize)> = Vec::new();
    let mut owners: Vec<String> = Vec::new();
    let na: usize = our_addresses.len();
    let mut a: usize = 0;
    assert(addrs.take(0) =~= Seq::<Seq<char>>::empty());
    assert(chosen_models(chosen@, addrs, fm) =~= first_by_txid(flat(addrs.take(0), fm.take(0))));
    assert(texts(owners@) =~= owners_of(chosen_models(chosen@, addrs, fm)));
    while a < na
        invariant
            a <= na,
            na == our_addresses@.len(),
            fetched@.len() == na,
            addrs == texts(our_addresses@),
            fm == fetched_models(fetched@),
            addrs.len() == na,
            fm.len() == na,
            valid_chosen(chosen@, fm),
            chosen_models(chosen@, addrs, fm) == first_by_txid(flat(addrs.take(a as int), fm.take(a as int))),
            texts(owners@) == owners_of(chosen_models(chosen@, addrs, fm)),
        decreases na - a,
    {
        let ghost base = flat(addrs.take(a as int), fm.take(a as int));
        let txs = &fetched[a];
        let nt: usize = txs.len();
        assert(fm[a as int] == txs@.map_values(|t: BTransaction| t@));
        let mut t: usize = 0;
        assert(tagged(fm[a as int].take(0), addrs[a as int]) =~= Seq::<(TransactionModel, Seq<char>)>::empty());
        assert(base + tagged(fm[a as int].take(0), addrs[a as int]) =~= base);
        while t < nt
            invariant
                a < na,
                t <= nt,
                na == our_addresses@.len(),
                fetched@.len() == na,
                addrs == texts(our_addresses@),
                fm == fetched_models(fetched@),
                addrs.len() == na,
                fm.len() == na,
                txs == &fetched@[a as int],
                nt == txs@.len(),
                fm[a as int].len() == nt,
                valid_chosen(chosen@, fm),
                base == flat(addrs.take(a as int), fm.take(a as int)),
                chosen_models(chosen@, addrs, fm) == first_by_txid(base + tagged(fm[a as int].take(t as int), addrs[a as int])),
                texts(owners@) == owners_of(chosen_models(chosen@, addrs, fm)),
            decreases nt - t,
        {
            let ghost s = base + tagged(fm[a as int].take(t as int), addrs[a as int]);
            let ghost s2 = base + tagged(fm[a as int].take(t + 1), addrs[a as int]);
            let ghost item = (fm[a as int][t as int], addrs[a as int]);
            assert(s2 =~= s.push(item));
            assert(s2.drop_last() =~= s);
            assert(fm[a as int][t as int] == txs@[t as int]@);
            let seen = txid_seen(&chosen, fetched, &txs[t].txid, Ghost(addrs));
            if !seen {
                let ghost old_chosen = chosen@;
                let ghost old_owners = owners@;
                chosen.push((a, t));
                owners.push(our_addresses[a].clone());
                assert(chosen_models(chosen@, addrs, fm) =~= chosen_models(old_chosen, addrs, fm).push(item));
                assert(addrs[a as int] == our_addresses@[a as int]@);
                assert(texts(owners@) =~= texts(old_owners).push(addrs[a as int]));
                assert(owners_of(chosen_models(old_chosen, addrs, fm).push(item)) =~= owners_of(chosen_models(old_chosen, addrs, fm)).push(item.1));
                assert(texts(owners@) =~= owners_of(chosen_models(chosen@, addrs, fm)));
            }
            t = t + 1;
        }
        proof {
            assert(fm[a as int].take(nt as int) =~= fm[a as int]);
            assert(addrs.take(a + 1).drop_last() =~= addrs.take(a as int));
            assert(fm.take(a + 1).drop_last() =~= fm.take(a as int));
            assert(flat(addrs.take(a + 1), fm.take(a + 1)) == base + tagged(fm[a as int], addrs[a as int]));
        }
        a = a + 1;
    }
    assert(addrs.take(na as int) =~= addrs);
    assert(fm.take(na as int) =~= fm);
    (chosen, owners)

}

/// Satoshis paid by the outputs to any of the addresses, or `None` when the
/// sum does not fit in 64 bits.
fn received_checked(tx: &BTransaction, owners: &Vec<String>) -> (r: Option<u64>)
    ensures
        r is Some <==> received_of(tx@.vout, texts(owners@)) <= u64::MAX,
        r matches Some(v) ==> v == received_of(tx@.vout, texts(owners@)),
{
    let ghost v = tx@.vout;
    let n: usize = tx.vout.len();
    let mut total: u64 = 0;
    let mut i: usize = 0;
    while i < n
        invariant
            i <= n,
            n == tx.vout@.len(),
            v == tx@.vout,
            v.len() == n,
            total == received_of(v.take(i as int), texts(owners@)),
        decreases n - i,
    {
        proof {
            lemma_received_prefix(v, texts(owners@), i + 1);
            assert(v.take(i + 1).drop_last() =~= v.take(i as int));
            assert(v[i as int] == tx.vout@[i as int]@);
        }
        if contains_text(owners, &tx.vout[i].scriptpubkey_address) {
            match total.checked_add(tx.vout[i].value) {
                Some(t) => total = t,
                None => return None,
            }
        }
        i = i + 1;
    }
    assert(v.take(n as int) =~= v);
    Some(total)
}

/// Satoshis spent by the inputs from any of the addresses, or `None` when
/// the sum does not fit in 64 bits.
fn sent_checked(tx: &BTransaction, owners: &Vec<String>) -> (r: Option<u64>)
    ensures
        r is Some <==> sent_of(tx@.vin, texts(owners@)) <= u64::MAX,
        r matches Some(v) ==> v == sent_of(tx@.vin, texts(owners@)),
{
    let ghost v = tx@.vin;
    let n: usize = tx.vin.len();
    let mut total: u64 = 0;
    let mut i: usize = 0;
    while i < n
        invariant
            i <= n,
            n == tx.vin@.len(),
            v == tx@.vin,
            v.len() == n,
            total == sent_of(v.take(i as int), texts(owners@)),
        decreases n - i,
    {
        proof {
            lemma_sent_prefix(v, texts(owners@), i + 1);
            assert(v.take(i + 1).drop_last() =~= v.take(i as int));
            assert(v[i as int] == tx.vin@[i as int]@);
        }
        if contains_text(owners, &tx.vin[i].prevout.scriptpubkey_address) {
            match total.checked_add(tx.vin[i].prevout.value) {
                Some(t) => total = t,
                None => return None,
            }
        }
        i = i + 1;
    }
    assert(v.take(n as int) =~= v);
    Some(total)
}

/// Whether the amounts received by and sent from the addresses fit in 64
/// bits for every transaction of the history: exactly when `overview_rows`
/// may be called.
pub fn amounts_fit_in_u64(our_addresses: &Vec<String>, fetched: &Vec<Vec<BTransaction>>) -> (r: bool)
    requires
        fetched@.len() == our_addresses@.len(),
    ensures
        r == amounts_fit(first_by_txid(flat(texts(our_addresses@), fetched_models(fetched@)))),
{
    let ghost addrs = texts(our_addresses@);
    let ghost fm = fetched_models(fetched@);
    let ghost u = first_by_txid(flat(addrs, fm));
    let (chosen, owners) = kept_transactions(our_addresses, fetched);
    let n: usize = chosen.len();
    assert(u.len() == n);
    let mut k: usize = 0;
    while k < n
        invariant
            k <= n,
            n == chosen@.len(),
            addrs == texts(our_addresses@),
            fm == fetched_models(fetched@),
            u == first_by_txid(flat(addrs, fm)),
            valid_chosen(chosen@, fm),
            chosen_models(chosen@, addrs, fm) == u,
            u.len() == n,
            texts(owners@) == owners_of(u),
            forall|q: int|
                0 <= q < k ==> received_of(#[trigger] u[q].0.vout, owners_of(u)) <= u64::MAX
                    && sent_of(u[q].0.vin, owners_of(u)) <= u64::MAX,
        decreases n - k,
    {
        let c = chosen[k];
        assert(c == chosen@[k as int]);
        assert(fm[c.0 as int] == fetched@[c.0 as int]@.map_values(|t: BTransaction| t@));
        let tx = &fetched[c.0][c.1];
        assert(u[k as int].0 == tx@);
        if received_checked(tx, &owners).is_none() {
            assert(!(received_of(u[k as int].0.vout, owners_of(u)) <= u64::MAX));
            assert(!amounts_fit(u));
            return false;
        }
        if sent_checked(tx, &owners).is_none() {
            assert(!(sent_of(u[k as int].0.vin, owners_of(u)) <= u64::MAX));
            assert(!amounts_fit(u));
            return false;
        }
        k = k + 1;
    }
    true
}

/// The transaction history of a wallet, from the transactions fetched for
/// each of its addresses (`fetched[i]` for `our_addresses[i]`): each
/// transaction once (the first time its id occurs, with the address it was
/// fetched for), sorted by block time, with the amounts received by and sent
/// from the addresses kept. Line `i` lists the address of the `i`-th kept
/// transaction in the order they were fetched.
pub fn overview_rows(our_addresses: &Vec<String>, fetched: &Vec<Vec<BTransaction>>) -> (r: Result<
    Vec<OverviewRow>,
    Error,
>)
    requires
        fetched@.len() == our_addresses@.len(),
        amounts_fit(first_by_txid(flat(texts(our_addresses@), fetched_models(fetched@)))),
    ensures
        r matches Ok(rows) && history_lines(
            rows@,
            first_by_txid(flat(texts(our_addresses@), fetched_models(fetched@))),
        ),
{
    let ghost addrs = texts(our_addresses@);
    let ghost fm = fetched_models(fetched@);
    let ghost u = first_by_txid(flat(addrs, fm));
    let (chosen, owners) = kept_transactions(our_addresses, fetched);

    // Block times, then the stable order by block time.
    let n: usize = chosen.len();
    let mut keys: Vec<u32> = Vec::new();
    let mut k: usize = 0;
    while k < n
        invariant
            k <= n,
            n == chosen@.len(),
            fm == fetched_models(fetched@),
            valid_chosen(chosen@, fm),
            chosen_models(chosen@, addrs, fm) == u,
            keys@.len() == k,
            forall|q: int| 0 <= q < k ==> keys@[q] == #[trigger] block_times(u)[q],
        decreases n - k,
    {
        let c = chosen[k];
        assert(c == chosen@[k as int]);
        assert(fm[c.0 as int] == fetched@[c.0 as int]@.map_values(|t: BTransaction| t@));
        assert(u[k as int].0 == fetched@[c.0 as int]@[c.1 as int]@);
        keys.push(fetched[c.0][c.1].status.block_time);
        k = k + 1;
    }
    assert(keys@ =~= block_times(u));
    let order = stable_order_by_key(&keys);

    // The lines.
    let mut rows: Vec<OverviewRow> = Vec::new();
    let mut i: usize = 0;
    while i < n
        invariant
            i <= n,
            n == chosen@.len(),
            fm == fetched_models(fetched@),
            valid_chosen(chosen@, fm),
            chosen_models(chosen@, addrs, fm) == u,
            u.len() == n,
            amounts_fit(u),
            is_stable_order(block_times(u), order@),
            texts(owners@) == owners_of(u),
            rows@.len() == i,
            forall|j: int|
                0 <= j < i ==> row_describes(#[trigger] rows@[j], u[order@[j] as int].0, u[j].1, owners_of(u)),
        decreases n - i,
    {
        let p = order[i];
        assert(p < n);
        let c = chosen[p];
        assert(c == chosen@[p as int]);
        assert(fm[c.0 as int] == fetched@[c.0 as int]@.map_values(|t: BTransaction| t@));
        let tx = &fetched[c.0][c.1];
        assert(u[p as int].0 == tx@);
        assert(owners_of(u).len() == n);
        assert(owners@.len() == n);
        let received = received_total(tx, &owners);
        let sent = sent_total(tx, &owners);
        let incoming = received > sent;
        let net: u64 = if incoming { received - sent } else { sent - received };
        let status = if tx.status.confirmed {
            "Confirmed".to_string()
        } else {
            "Pending Confirmation".to_string()
        };
        let timestamp = match tx.status.timestamp() {
            Ok(s) => s,
            Err(e) => return Err(e),
        };
        assert(owners_of(u)[i as int] == u[i as int].1);
        assert(texts(owners@)[i as int] == owners@[i as int]@);
        let row = OverviewRow {
            txid: tx.txid.clone(),
            received_satoshi: received,
            sent_satoshi: sent,
            incoming,
            net_satoshi: net,
            owner_address: owners[i].clone(),
            status,
            timestamp,
        };
        rows.push(row);
        i = i + 1;
    }
    assert(is_stable_order(block_times(u), order@));
    Ok(rows)
}

} // verus!
