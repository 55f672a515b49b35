use vstd::prelude::*;
use vstd::multiset::{lemma_multiset_empty_len, Multiset};
use vstd::seq_lib::{lemma_multiset_commutative, to_multiset_len};
use vstd::string::*;

verus! {

/// Largest number of units sent in one delivery request.
pub const CHUNK_SIZE: usize = 10;

/// Colour of a notification embed.
pub const EMBED_COLOR: u32 = 3512539;

/// The chunks of `items`, in order: ten items each, the last one holding
/// what remains.
pub open spec fn chunks_spec<T>(items: Seq<T>) -> Seq<Seq<T>>
    decreases items.len(),
{
    if items.len() == 0 {
        Seq::empty()
    } else if items.len() <= CHUNK_SIZE {
        seq![items]
    } else {
        seq![items.take(CHUNK_SIZE as int)] + chunks_spec(items.skip(CHUNK_SIZE as int))
    }
}

/// The chunks put back together.
pub open spec fn flatten<T>(chunks: Seq<Seq<T>>) -> Seq<T>
    decreases chunks.len(),
{
    if chunks.len() == 0 {
        Seq::empty()
    } else {
        chunks[0] + flatten(chunks.drop_first())
    }
}

/// The items of the chunks whose delivery failed, in order: what the next
/// pass sends.
pub open spec fn deferred<T>(chunks: Seq<Seq<T>>, delivered: Seq<bool>) -> Seq<T>
    decreases chunks.len(),
{
    if chunks.len() == 0 {
        Seq::empty()
    } else {
        (if delivered[0] {
            Seq::empty()
        } else {
            chunks[0]
        }) + deferred(chunks.drop_first(), delivered.drop_first())
    }
}

pub open spec fn views<T>(vs: Seq<Vec<T>>) -> Seq<Seq<T>> {
    vs.map_values(|v: Vec<T>| v@)
}

/// Number of chunks for `n` items: `n / 10` rounded up.
pub open spec fn chunk_count(n: nat) -> nat {
    (n + 9) / 10
}

/// Splits the units of one pass into the chunks that are each sent in one
/// request.
pub fn split_into_chunks<T>(items: Vec<T>) -> (r: Vec<Vec<T>>)
    ensures
        views(r@) == chunks_spec(items@),
{
    let ghost all = items@;
    let mut chunks: Vec<Vec<T>> = Vec::new();
    let mut rest = items;
    while rest.len() > 0
        invariant
            views(chunks@) + chunks_spec(rest@) == chunks_spec(all),
        decreases rest@.len(),
    {
        let at = if rest.len() < CHUNK_SIZE {
            rest.len()
        } else {
            CHUNK_SIZE
        };
        let ghost before = rest@;
        let tail = rest.split_off(at);
        proof {
            if before.len() <= CHUNK_SIZE {
                assert(rest@ =~= before);
                assert(tail@ =~= Seq::<T>::empty());
                assert(chunks_spec(tail@) =~= Seq::<Seq<T>>::empty());
            } else {
                assert(rest@ =~= before.take(CHUNK_SIZE as int));
                assert(tail@ =~= before.skip(CHUNK_SIZE as int));
            }
            assert(chunks_spec(before) =~= seq![rest@] + chunks_spec(tail@));
        }
        let ghost done = chunks@;
        let ghost head = rest@;
        chunks.push(rest);
        assert(views(chunks@) =~= views(done).push(head));
        assert(views(done).push(head) + chunks_spec(tail@) =~= views(done) + (seq![head] + chunks_spec(tail@)));
        rest = tail;
    }
    chunks
}

/// Gathers, in order, the units of the chunks whose delivery failed: the
/// units of the next pass. Chunks that were delivered are not sent again.
pub fn defer_failed<T>(chunks: Vec<Vec<T>>, delivered: &Vec<bool>) -> (r: Vec<T>)
    requires
        delivered@.len() == chunks@.len(),
    ensures
        r@ == deferred(views(chunks@), delivered@),
{
    let ghost all = views(chunks@);
    let mut rest = chunks;
    let mut out: Vec<T> = Vec::new();
    let mut i: usize = 0;
    let n = delivered.len();
    assert(delivered@.skip(0) =~= delivered@);
    assert(Seq::<T>::empty() + deferred(all, delivered@) =~= deferred(all, delivered@));
    assert(all.skip(0) =~= all);
    while rest.len() > 0
        invariant
            n == delivered@.len(),
            i + rest@.len() == delivered@.len(),
            delivered@.len() == all.len(),
            views(rest@) == all.skip(i as int),
            out@ + deferred(views(rest@), delivered@.skip(i as int)) == deferred(all, delivered@),
        decreases rest@.len(),
    {
        let ghost before = rest@;
        let ghost acc = out@;
        let mut chunk = rest.remove(0);
        let ghost head = chunk@;
        proof {
            assert(views(before)[0] == head);
            assert(views(before).drop_first() =~= views(rest@));
            assert(delivered@.skip(i as int).drop_first() =~= delivered@.skip(i + 1));
            assert(delivered@.skip(i as int)[0] == delivered@[i as int]);
        }
        if !delivered[i] {
            out.append(&mut chunk);
        }
        proof {
            let tail = deferred(views(rest@), delivered@.skip(i + 1));
            if delivered@[i as int] {
                assert(Seq::<T>::empty() + tail =~= tail);
            } else {
                assert(acc + (head + tail) =~= (acc + head) + tail);
            }
            assert(views(rest@) =~= all.skip(i + 1));
        }
        i = i + 1;
    }
    assert(deferred(views(rest@), delivered@.skip(i as int)) =~= Seq::<T>::empty());
    assert(out@ + Seq::<T>::empty() =~= out@);
    out
}

proof fn lemma_take_skip<T>(items: Seq<T>)
    requires
        items.len() > CHUNK_SIZE,
    ensures
        items.take(CHUNK_SIZE as int) + items.skip(CHUNK_SIZE as int) == items,
{
    assert(items.take(CHUNK_SIZE as int) + items.skip(CHUNK_SIZE as int) =~= items);
}

/// One delivery pass over `items`: there are `ceil(N / 10)` chunks, each of
/// one to ten units, which together are the units in their order; when every
/// chunk is delivered the next pass is empty, and when none is, the next pass
/// sends every unit again.
pub proof fn lemma_delivery_pass<T>(items: Seq<T>)
    ensures
        chunks_spec(items).len() == chunk_count(items.len()),
        forall|k: int|
            0 <= k < chunks_spec(items).len() ==> 1 <= (#[trigger] chunks_spec(items)[k]).len()
                <= CHUNK_SIZE,
        flatten(chunks_spec(items)) == items,
        deferred(chunks_spec(items), Seq::new(chunks_spec(items).len(), |k: int| true))
            == Seq::<T>::empty(),
        deferred(chunks_spec(items), Seq::new(chunks_spec(items).len(), |k: int| false)) == items,
    decreases items.len(),
{
    let cs = chunks_spec(items);
    let yes = Seq::new(cs.len(), |k: int| true);
    let no = Seq::new(cs.len(), |k: int| false);
    if items.len() == 0 {
    } else if items.len() <= CHUNK_SIZE {
        assert(cs.drop_first() =~= Seq::<Seq<T>>::empty());
        assert(flatten(cs.drop_first()) == Seq::<T>::empty());
        assert(deferred(cs.drop_first(), yes.drop_first()) == Seq::<T>::empty());
        assert(deferred(cs.drop_first(), no.drop_first()) == Seq::<T>::empty());
        assert(flatten(cs) =~= items);
        assert(deferred(cs, yes) =~= Seq::<T>::empty());
        assert(deferred(cs, no) =~= items);
    } else {
        let rest = items.skip(CHUNK_SIZE as int);
        lemma_delivery_pass(rest);
        lemma_take_skip(items);
        let rs = chunks_spec(rest);
        assert(cs.drop_first() =~= rs);
        assert(yes.drop_first() =~= Seq::new(rs.len(), |k: int| true));
        assert(no.drop_first() =~= Seq::new(rs.len(), |k: int| false));
        assert forall|k: int| 0 <= k < cs.len() implies 1 <= (#[trigger] cs[k]).len() <= CHUNK_SIZE by {
            if k > 0 {
                assert(cs[k] == rs[k - 1]);
            }
        }
        assert(deferred(cs, yes) =~= Seq::<T>::empty());
    }
}

/// What a primary publish request came to: success on a 2xx status, else an
/// error made of the status line and the response body.
pub fn response_outcome(status: u16, status_line: &str, body: &str) -> (r: Result<(), String>)
    ensures
        (200 <= status <= 299) ==> r == Ok::<(), String>(()),
        !(200 <= status <= 299) ==> r is Err && r->Err_0@ == status_line@ + ": "@ + body@,
{
    if 200 <= status && status <= 299 {
        Ok(())
    } else {
        let mut message = String::from_str(status_line);
        message.append(": ");
        message.append(body);
        Err(message)
    }
}

/// The text of the notification for one registered domain.
pub open spec fn description_spec(domain: Seq<char>, inscription_id: Seq<char>) -> Seq<char> {
    "`"@ + domain + "` has just been registered!\n["@ + inscription_id
        + "](https://ordinalswallet.com/inscription/"@ + inscription_id + ")"@
}

/// The text of the notification for one registered domain, linking its
/// inscription.
pub fn embed_description(domain: &str, inscription_id: &str) -> (r: String)
    ensures
        r@ == description_spec(domain@, inscription_id@),
{
    let mut text = String::from_str("`");
    text.append(domain);
    text.append("` has just been registered!\n[");
    text.append(inscription_id);
    text.append("](https://ordinalswallet.com/inscription/");
    text.append(inscription_id);
    text.append(")");
    text
}

/// The items of the chunks that were delivered, in order.
pub open spec fn delivered_items<T>(chunks: Seq<Seq<T>>, delivered: Seq<bool>) -> Seq<T>
    decreases chunks.len(),
{
    if chunks.len() == 0 {
        Seq::empty()
    } else {
        (if delivered[0] {
            chunks[0]
        } else {
            Seq::empty()
        }) + delivered_items(chunks.drop_first(), delivered.drop_first())
    }
}

/// The items delivered over successive passes that start from `items`;
/// `passes[k]` tells which chunks of pass `k` were delivered.
pub open spec fn run_delivered<T>(items: Seq<T>, passes: Seq<Seq<bool>>) -> Seq<T>
    decreases passes.len(),
{
    if passes.len() == 0 {
        Seq::empty()
    } else {
        delivered_items(chunks_spec(items), passes[0]) + run_delivered(
            deferred(chunks_spec(items), passes[0]),
            passes.drop_first(),
        )
    }
}

/// The items still waiting after those passes.
pub open spec fn run_pending<T>(items: Seq<T>, passes: Seq<Seq<bool>>) -> Seq<T>
    decreases passes.len(),
{
    if passes.len() == 0 {
        items
    } else {
        run_pending(deferred(chunks_spec(items), passes[0]), passes.drop_first())
    }
}

proof fn lemma_empty_to_multiset<T>(s: Seq<T>)
    requires
        s.len() == 0,
    ensures
        s.to_multiset() =~= Multiset::<T>::empty(),
{
    to_multiset_len(s);
    lemma_multiset_empty_len(s.to_multiset());
}

proof fn lemma_pass_partition<T>(chunks: Seq<Seq<T>>, delivered: Seq<bool>)
    ensures
        flatten(chunks).to_multiset() =~= delivered_items(chunks, delivered).to_multiset().add(
            deferred(chunks, delivered).to_multiset(),
        ),
    decreases chunks.len(),
{
    broadcast use vstd::multiset::group_multiset_axioms;

    if chunks.len() == 0 {
        lemma_empty_to_multiset(flatten(chunks));
        lemma_empty_to_multiset(delivered_items(chunks, delivered));
        lemma_empty_to_multiset(deferred(chunks, delivered));
    } else {
        let rest = chunks.drop_first();
        let more = delivered.drop_first();
        lemma_pass_partition(rest, more);
        let ok_part = if delivered[0] { chunks[0] } else { Seq::<T>::empty() };
        let failed_part = if delivered[0] { Seq::<T>::empty() } else { chunks[0] };
        lemma_multiset_commutative(chunks[0], flatten(rest));
        lemma_multiset_commutative(ok_part, delivered_items(rest, more));
        lemma_multiset_commutative(failed_part, deferred(rest, more));
        lemma_empty_to_multiset(Seq::<T>::empty());
        assert(flatten(chunks) == chunks[0] + flatten(rest));
        assert(delivered_items(chunks, delivered) == ok_part + delivered_items(rest, more));
        assert(deferred(chunks, delivered) == failed_part + deferred(rest, more));
    }
}

/// Over any number of delivery passes, each unit is either delivered in
/// exactly one successful request or still waiting: the units delivered and
/// the units left are, as multisets, exactly the units handed in. So a unit
/// of a delivered chunk is never sent again, and when nothing is left every
/// unit was delivered exactly once.
pub proof fn lemma_delivered_once<T>(items: Seq<T>, passes: Seq<Seq<bool>>)
    ensures
        items.to_multiset() =~= run_delivered(items, passes).to_multiset().add(
            run_pending(items, passes).to_multiset(),
        ),
        run_pending(items, passes).len() == 0 ==> items.to_multiset() =~= run_delivered(
            items,
            passes,
        ).to_multiset(),
    decreases passes.len(),
{
    broadcast use vstd::multiset::group_multiset_axioms;

    if passes.len() == 0 {
        lemma_empty_to_multiset(run_delivered(items, passes));
    } else {
        let cs = chunks_spec(items);
        let next = deferred(cs, passes[0]);
        lemma_delivery_pass(items);
        lemma_pass_partition(cs, passes[0]);
        lemma_delivered_once(next, passes.drop_first());
        lemma_multiset_commutative(
            delivered_items(cs, passes[0]),
            run_delivered(next, passes.drop_first()),
        );
        assert(flatten(cs) == items);
        assert(run_delivered(items, passes) == delivered_items(cs, passes[0]) + run_delivered(
            next,
            passes.drop_first(),
        ));
        assert(run_pending(items, passes) == run_pending(next, passes.drop_first()));
    }
    if run_pending(items, passes).len() == 0 {
        lemma_empty_to_multiset(run_pending(items, passes));
    }
}

} // verus!
