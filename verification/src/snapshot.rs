use vstd::prelude::*;

use crate::module::{Export, Import};
use crate::strutil::{chars_le, lemma_seq_le_total, seq_le};

verus! {

broadcast use vstd::seq_lib::group_to_multiset_ensures;

// ---------------------------------------------------------------------------
// Snapshot ordering.  For snapshot-driven tests a module's imports are
// sorted by specifier and its exports by their first symbol's name;
// production keeps source order, which the extractors' contracts already
// pin.
// ---------------------------------------------------------------------------

/// The sort key of an export: its first symbol's name, or the empty text
/// when it has none.
pub open spec fn export_key(e: Export) -> Seq<char> {
    if e.symbols@.len() > 0 {
        e.symbols@[0].name@
    } else {
        Seq::empty()
    }
}

pub open spec fn imports_sorted(s: Seq<Import>) -> bool {
    forall|i: int, j: int|
        0 <= i < j < s.len() ==> seq_le(
            (#[trigger] s[i]).source_request@,
            (#[trigger] s[j]).source_request@,
        )
}

pub open spec fn exports_sorted(s: Seq<Export>) -> bool {
    forall|i: int, j: int|
        0 <= i < j < s.len() ==> seq_le(export_key(#[trigger] s[i]), export_key(#[trigger] s[j]))
}

/// The order is transitive.
pub proof fn lemma_seq_le_trans(a: Seq<char>, b: Seq<char>, c: Seq<char>)
    requires
        seq_le(a, b),
        seq_le(b, c),
    ensures
        seq_le(a, c),
    decreases a.len(),
{
    if a.len() > 0 {
        assert(b.len() > 0);
        assert(c.len() > 0);
        if a[0] == b[0] && b[0] == c[0] {
            lemma_seq_le_trans(a.drop_first(), b.drop_first(), c.drop_first());
        }
    }
}

fn export_key_chars(e: &Export) -> (r: Vec<char>)
    ensures
        r@ == export_key(*e),
{
    if e.symbols.len() > 0 {
        crate::to_chars(e.symbols[0].name.as_str())
    } else {
        Vec::new()
    }
}

/// Sort imports by their specifier text, keeping the collection's contents.
#[verifier::loop_isolation(false)]
pub fn sort_imports_by_source_request(v: &mut Vec<Import>)
    ensures
        imports_sorted(final(v)@),
        final(v)@.to_multiset() == old(v)@.to_multiset(),
{
    let mut out: Vec<Import> = Vec::new();
    proof {
        assert(out@.to_multiset().add(v@.to_multiset()) =~= old(v)@.to_multiset());
    }
    while v.len() > 0
        invariant
            out@.to_multiset().add(v@.to_multiset()) == old(v)@.to_multiset(),
            imports_sorted(out@),
            forall|o: int, w: int|
                0 <= o < out@.len() && 0 <= w < v@.len() ==> seq_le(
                    (#[trigger] out@[o]).source_request@,
                    (#[trigger] v@[w]).source_request@,
                ),
        decreases v@.len(),
    {
        // Find the least remaining key.
        let mut best: usize = 0;
        let mut k: usize = 1;
        proof {
            lemma_seq_le_total(v@[0].source_request@, v@[0].source_request@);
        }
        while k < v.len()
            invariant
                0 <= best < v@.len(),
                1 <= k <= v@.len(),
                forall|m: int|
                    0 <= m < k ==> seq_le(
                        v@[best as int].source_request@,
                        (#[trigger] v@[m]).source_request@,
                    ),
            decreases v@.len() - k,
        {
            let kc = crate::to_chars(v[k].source_request.as_str());
            let bc = crate::to_chars(v[best].source_request.as_str());
            if chars_le(&kc, &bc) && !chars_le(&bc, &kc) {
                proof {
                    assert forall|m: int|
                        0 <= m < k implies seq_le(
                        v@[k as int].source_request@,
                        (#[trigger] v@[m]).source_request@,
                    ) by {
                        lemma_seq_le_trans(
                            v@[k as int].source_request@,
                            v@[best as int].source_request@,
                            v@[m].source_request@,
                        );
                    }
                    lemma_seq_le_total(
                        v@[k as int].source_request@,
                        v@[k as int].source_request@,
                    );
                }
                best = k;
            } else {
                proof {
                    lemma_seq_le_total(
                        v@[best as int].source_request@,
                        v@[k as int].source_request@,
                    );
                }
            }
            k += 1;
        }
        let ghost pre_out = out@;
        let ghost pre_v = v@;
        let x = v.remove(best);
        out.push(x);
        proof {
            assert(out@.to_multiset().add(v@.to_multiset()) =~= old(v)@.to_multiset()) by {
                assert(out@.to_multiset() =~= pre_out.to_multiset().insert(x));
                assert(v@.to_multiset() =~= pre_v.to_multiset().remove(x));
                assert(pre_v.to_multiset().count(x) >= 1) by {
                    assert(pre_v.contains(x));
                }
            }
            assert forall|o: int, w: int|
                0 <= o < out@.len() && 0 <= w < v@.len() implies seq_le(
                (#[trigger] out@[o]).source_request@,
                (#[trigger] v@[w]).source_request@,
            ) by {
                let wv = v@[w];
                assert(wv == pre_v[w] || wv == pre_v[w + 1]);
                if o < pre_out.len() {
                    assert(out@[o] == pre_out[o]);
                } else {
                    assert(out@[o] == x);
                }
            }
        }
    }
    proof {
        assert(v@.to_multiset() =~= Seq::<Import>::empty().to_multiset());
        assert(out@.to_multiset().add(v@.to_multiset()) =~= out@.to_multiset());
    }
    *v = out;
}

/// Sort exports by their first symbol's name, keeping the collection's
/// contents.
#[verifier::loop_isolation(false)]
pub fn sort_exports_by_first_symbol(v: &mut Vec<Export>)
    ensures
        exports_sorted(final(v)@),
        final(v)@.to_multiset() == old(v)@.to_multiset(),
{
    let mut out: Vec<Export> = Vec::new();
    proof {
        assert(out@.to_multiset().add(v@.to_multiset()) =~= old(v)@.to_multiset());
    }
    while v.len() > 0
        invariant
            out@.to_multiset().add(v@.to_multiset()) == old(v)@.to_multiset(),
            exports_sorted(out@),
            forall|o: int, w: int|
                0 <= o < out@.len() && 0 <= w < v@.len() ==> seq_le(
                    export_key(#[trigger] out@[o]),
                    export_key(#[trigger] v@[w]),
                ),
        decreases v@.len(),
    {
        let mut best: usize = 0;
        let mut k: usize = 1;
        proof {
            lemma_seq_le_total(export_key(v@[0]), export_key(v@[0]));
        }
        while k < v.len()
            invariant
                0 <= best < v@.len(),
                1 <= k <= v@.len(),
                forall|m: int|
                    0 <= m < k ==> seq_le(export_key(v@[best as int]), export_key(
                        #[trigger] v@[m],
                    )),
            decreases v@.len() - k,
        {
            let kc = export_key_chars(&v[k]);
            let bc = export_key_chars(&v[best]);
            if chars_le(&kc, &bc) && !chars_le(&bc, &kc) {
                proof {
                    assert forall|m: int|
                        0 <= m < k implies seq_le(export_key(v@[k as int]), export_key(
                        #[trigger] v@[m],
                    )) by {
                        lemma_seq_le_trans(
                            export_key(v@[k as int]),
                            export_key(v@[best as int]),
                            export_key(v@[m]),
                        );
                    }
                    lemma_seq_le_total(export_key(v@[k as int]), export_key(v@[k as int]));
                }
                best = k;
            } else {
                proof {
                    lemma_seq_le_total(export_key(v@[best as int]), export_key(v@[k as int]));
                }
            }
            k += 1;
        }
        let ghost pre_out = out@;
        let ghost pre_v = v@;
        let x = v.remove(best);
        out.push(x);
        proof {
            assert(out@.to_multiset().add(v@.to_multiset()) =~= old(v)@.to_multiset()) by {
                assert(out@.to_multiset() =~= pre_out.to_multiset().insert(x));
                assert(v@.to_multiset() =~= pre_v.to_multiset().remove(x));
                assert(pre_v.to_multiset().count(x) >= 1) by {
                    assert(pre_v.contains(x));
                }
            }
            assert forall|o: int, w: int|
                0 <= o < out@.len() && 0 <= w < v@.len() implies seq_le(
                export_key(#[trigger] out@[o]),
                export_key(#[trigger] v@[w]),
            ) by {
                let wv = v@[w];
                assert(wv == pre_v[w] || wv == pre_v[w + 1]);
                if o < pre_out.len() {
                    assert(out@[o] == pre_out[o]);
                } else {
                    assert(out@[o] == x);
                }
            }
        }
    }
    proof {
        assert(v@.to_multiset() =~= Seq::<Export>::empty().to_multiset());
        assert(out@.to_multiset().add(v@.to_multiset()) =~= out@.to_multiset());
    }
    *v = out;
}

impl crate::module_graph::Module {
    /// Put the module in snapshot order: imports by specifier, exports by
    /// first symbol name.  Production mode never calls this, so source
    /// order is preserved there.
    pub fn sort_for_snapshots(&mut self)
        ensures
            imports_sorted(final(self).imports@),
            exports_sorted(final(self).exports@),
            final(self).imports@.to_multiset() == old(self).imports@.to_multiset(),
            final(self).exports@.to_multiset() == old(self).exports@.to_multiset(),
            final(self).id == old(self).id,
            final(self).path == old(self).path,
            final(self).fragment == old(self).fragment,
            final(self).query == old(self).query,
            final(self).package_name == old(self).package_name,
            final(self).source == old(self).source,
    {
        sort_imports_by_source_request(&mut self.imports);
        sort_exports_by_first_symbol(&mut self.exports);
    }
}

} // verus!
