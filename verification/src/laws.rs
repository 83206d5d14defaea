use crate::catalog::spec_resolve_font;
use crate::engine::{
    effective_locale, errors_upto, font_notes_upto, font_selected, node_after_tick, node_errors,
    node_font_notes, node_size_notes, node_translation_notes, size_notes_upto, spec_tick_errors,
    spec_tick_notes, translation_notes_upto, translation_selected, EngineView, NodeView,
    NotificationView, TickErrorView,
};
use crate::resolve::{spec_resolve, TranslationErrorView};
use vstd::prelude::*;

verus! {

/// The node a notification is addressed to.
pub open spec fn note_node(x: NotificationView) -> u64 {
    match x {
        NotificationView::TranslationUpdated { node, .. } => node,
        NotificationView::FontUpdated { node, .. } => node,
        NotificationView::FontSizeUpdated { node, .. } => node,
    }
}

/// The notifications addressed to `id`, in order.
pub open spec fn notes_for(notes: Seq<NotificationView>, id: u64) -> Seq<NotificationView>
    decreases notes.len(),
{
    if notes.len() == 0 {
        Seq::empty()
    } else {
        let rest = notes_for(notes.drop_first(), id);
        if note_node(notes[0]) == id {
            seq![notes[0]] + rest
        } else {
            rest
        }
    }
}

/// The errors addressed to `id`, in order.
pub open spec fn errors_for(errors: Seq<TickErrorView>, id: u64) -> Seq<TickErrorView>
    decreases errors.len(),
{
    if errors.len() == 0 {
        Seq::empty()
    } else {
        let rest = errors_for(errors.drop_first(), id);
        if errors[0].node == id {
            seq![errors[0]] + rest
        } else {
            rest
        }
    }
}

/// True if no two tracked nodes share an identity.
pub open spec fn distinct_node_ids(nodes: Seq<NodeView>) -> bool {
    forall|a: int, b: int| 0 <= a < b < nodes.len() ==> nodes[a].id != nodes[b].id
}

/// True if the state has no pending input change: no consumed-locale flag
/// and no dirty binding anywhere.
pub open spec fn quiescent(s: EngineView) -> bool {
    &&& !s.registry.changed
    &&& forall|i: int|
        0 <= i < s.nodes.len() ==> !s.nodes[i].text_dirty && !s.nodes[i].locale_dirty
            && !s.nodes[i].family_dirty && !s.nodes[i].size_dirty
}

/// True if recomputing the node's translation under the state's active
/// locale would produce a value that differs from its cache.
pub open spec fn translation_differs(s: EngineView, n: NodeView) -> bool {
    match n.text {
        Some(t) => match spec_resolve(s.store, effective_locale(n, s.registry.active), t) {
            Ok(v) => n.translation != Some(v),
            Err(_) => false,
        },
        None => false,
    }
}

/// True if resolving the node's font under the state's active locale would
/// produce a handle that differs from its cache.
pub open spec fn font_differs(s: EngineView, n: NodeView) -> bool {
    match n.family {
        Some(fam) => n.font != Some(
            spec_resolve_font(s.catalog, fam, effective_locale(n, s.registry.active)),
        ),
        None => false,
    }
}

proof fn lemma_notes_for_add(a: Seq<NotificationView>, b: Seq<NotificationView>, id: u64)
    ensures
        notes_for(a + b, id) == notes_for(a, id) + notes_for(b, id),
    decreases a.len(),
{
    if a.len() == 0 {
        assert(a + b =~= b);
        assert(notes_for(a, id) + notes_for(b, id) =~= notes_for(b, id));
    } else {
        lemma_notes_for_add(a.drop_first(), b, id);
        assert((a + b).drop_first() =~= a.drop_first() + b);
        if note_node(a[0]) == id {
            assert(seq![a[0]] + (notes_for(a.drop_first(), id) + notes_for(b, id)) =~= (seq![
                a[0],
            ] + notes_for(a.drop_first(), id)) + notes_for(b, id));
        }
    }
}

proof fn lemma_errors_for_add(a: Seq<TickErrorView>, b: Seq<TickErrorView>, id: u64)
    ensures
        errors_for(a + b, id) == errors_for(a, id) + errors_for(b, id),
    decreases a.len(),
{
    if a.len() == 0 {
        assert(a + b =~= b);
        assert(errors_for(a, id) + errors_for(b, id) =~= errors_for(b, id));
    } else {
        lemma_errors_for_add(a.drop_first(), b, id);
        assert((a + b).drop_first() =~= a.drop_first() + b);
        if a[0].node == id {
            assert(seq![a[0]] + (errors_for(a.drop_first(), id) + errors_for(b, id)) =~= (seq![
                a[0],
            ] + errors_for(a.drop_first(), id)) + errors_for(b, id));
        }
    }
}

proof fn lemma_notes_for_small(c: Seq<NotificationView>, id: u64)
    requires
        c.len() <= 1,
    ensures
        c.len() == 0 ==> notes_for(c, id) == Seq::<NotificationView>::empty(),
        c.len() == 1 && note_node(c[0]) == id ==> notes_for(c, id) == c,
        c.len() == 1 && note_node(c[0]) != id ==> notes_for(c, id) == Seq::<
            NotificationView,
        >::empty(),
{
    if c.len() == 1 {
        assert(c.drop_first() =~= Seq::<NotificationView>::empty());
        if note_node(c[0]) == id {
            assert(seq![c[0]] + notes_for(c.drop_first(), id) =~= c);
        }
    }
}

proof fn lemma_errors_for_small(c: Seq<TickErrorView>, id: u64)
    requires
        c.len() <= 1,
    ensures
        c.len() == 0 ==> errors_for(c, id) == Seq::<TickErrorView>::empty(),
        c.len() == 1 && c[0].node == id ==> errors_for(c, id) == c,
        c.len() == 1 && c[0].node != id ==> errors_for(c, id) == Seq::<TickErrorView>::empty(),
{
    if c.len() == 1 {
        assert(c.drop_first() =~= Seq::<TickErrorView>::empty());
        if c[0].node == id {
            assert(seq![c[0]] + errors_for(c.drop_first(), id) =~= c);
        }
    }
}

/// A node's translation contribution is empty or one note addressed to it.
proof fn lemma_trans_contrib_shape(s: EngineView, n: NodeView, g: bool)
    ensures
        node_translation_notes(s, n, g).len() <= 1,
        node_translation_notes(s, n, g).len() == 1 ==> note_node(
            node_translation_notes(s, n, g)[0],
        ) == n.id,
{
}

proof fn lemma_size_contrib_shape(n: NodeView)
    ensures
        node_size_notes(n).len() <= 1,
        node_size_notes(n).len() == 1 ==> note_node(node_size_notes(n)[0]) == n.id,
{
}

proof fn lemma_font_contrib_shape(s: EngineView, n: NodeView, g: bool)
    ensures
        node_font_notes(s, n, g).len() <= 1,
        node_font_notes(s, n, g).len() == 1 ==> note_node(node_font_notes(s, n, g)[0]) == n.id,
{
}

proof fn lemma_errors_contrib_shape(s: EngineView, n: NodeView, g: bool)
    ensures
        node_errors(s, n, g).len() <= 1,
        node_errors(s, n, g).len() == 1 ==> node_errors(s, n, g)[0].node == n.id,
{
}

proof fn lemma_trans_upto_for(s: EngineView, g: bool, i: int, m: int)
    requires
        distinct_node_ids(s.nodes),
        0 <= i < s.nodes.len(),
        0 <= m <= s.nodes.len(),
    ensures
        notes_for(translation_notes_upto(s, g, m), s.nodes[i].id) == if i < m {
            node_translation_notes(s, s.nodes[i], g)
        } else {
            Seq::<NotificationView>::empty()
        },
    decreases m,
{
    let id = s.nodes[i].id;
    if m > 0 {
        lemma_trans_upto_for(s, g, i, m - 1);
        lemma_notes_for_add(
            translation_notes_upto(s, g, m - 1),
            node_translation_notes(s, s.nodes[m - 1], g),
            id,
        );
        lemma_trans_contrib_shape(s, s.nodes[m - 1], g);
        lemma_notes_for_small(node_translation_notes(s, s.nodes[m - 1], g), id);
        if m - 1 == i {
            assert(Seq::<NotificationView>::empty() + node_translation_notes(s, s.nodes[i], g)
                =~= node_translation_notes(s, s.nodes[i], g));
        } else {
            assert(s.nodes[m - 1].id != id);
            assert(notes_for(node_translation_notes(s, s.nodes[m - 1], g), id) =~= Seq::<
                NotificationView,
            >::empty());
            if i < m - 1 {
                assert(node_translation_notes(s, s.nodes[i], g) + Seq::<
                    NotificationView,
                >::empty() =~= node_translation_notes(s, s.nodes[i], g));
            } else {
                assert(Seq::<NotificationView>::empty() + Seq::<NotificationView>::empty() =~= Seq::<
                    NotificationView,
                >::empty());
            }
        }
    }
}

proof fn lemma_size_upto_for(s: EngineView, i: int, m: int)
    requires
        distinct_node_ids(s.nodes),
        0 <= i < s.nodes.len(),
        0 <= m <= s.nodes.len(),
    ensures
        notes_for(size_notes_upto(s, m), s.nodes[i].id) == if i < m {
            node_size_notes(s.nodes[i])
        } else {
            Seq::<NotificationView>::empty()
        },
    decreases m,
{
    let id = s.nodes[i].id;
    if m > 0 {
        lemma_size_upto_for(s, i, m - 1);
        lemma_notes_for_add(size_notes_upto(s, m - 1), node_size_notes(s.nodes[m - 1]), id);
        lemma_size_contrib_shape(s.nodes[m - 1]);
        lemma_notes_for_small(node_size_notes(s.nodes[m - 1]), id);
        if m - 1 == i {
            assert(Seq::<NotificationView>::empty() + node_size_notes(s.nodes[i]) =~= node_size_notes(
                s.nodes[i],
            ));
        } else {
            assert(s.nodes[m - 1].id != id);
            if i < m - 1 {
                assert(node_size_notes(s.nodes[i]) + Seq::<NotificationView>::empty()
                    =~= node_size_notes(s.nodes[i]));
            } else {
                assert(Seq::<NotificationView>::empty() + Seq::<NotificationView>::empty() =~= Seq::<
                    NotificationView,
                >::empty());
            }
        }
    }
}

proof fn lemma_font_upto_for(s: EngineView, g: bool, i: int, m: int)
    requires
        distinct_node_ids(s.nodes),
        0 <= i < s.nodes.len(),
        0 <= m <= s.nodes.len(),
    ensures
        notes_for(font_notes_upto(s, g, m), s.nodes[i].id) == if i < m {
            node_font_notes(s, s.nodes[i], g)
        } else {
            Seq::<NotificationView>::empty()
        },
    decreases m,
{
    let id = s.nodes[i].id;
    if m > 0 {
        lemma_font_upto_for(s, g, i, m - 1);
        lemma_notes_for_add(font_notes_upto(s, g, m - 1), node_font_notes(s, s.nodes[m - 1], g), id);
        lemma_font_contrib_shape(s, s.nodes[m - 1], g);
        lemma_notes_for_small(node_font_notes(s, s.nodes[m - 1], g), id);
        if m - 1 == i {
            assert(Seq::<NotificationView>::empty() + node_font_notes(s, s.nodes[i], g)
                =~= node_font_notes(s, s.nodes[i], g));
        } else {
            assert(s.nodes[m - 1].id != id);
            if i < m - 1 {
                assert(node_font_notes(s, s.nodes[i], g) + Seq::<NotificationView>::empty()
                    =~= node_font_notes(s, s.nodes[i], g));
            } else {
                assert(Seq::<NotificationView>::empty() + Seq::<NotificationView>::empty() =~= Seq::<
                    NotificationView,
                >::empty());
            }
        }
    }
}

proof fn lemma_errors_upto_for(s: EngineView, g: bool, i: int, m: int)
    requires
        distinct_node_ids(s.nodes),
        0 <= i < s.nodes.len(),
        0 <= m <= s.nodes.len(),
    ensures
        errors_for(errors_upto(s, g, m), s.nodes[i].id) == if i < m {
            node_errors(s, s.nodes[i], g)
        } else {
            Seq::<TickErrorView>::empty()
        },
    decreases m,
{
    let id = s.nodes[i].id;
    if m > 0 {
        lemma_errors_upto_for(s, g, i, m - 1);
        lemma_errors_for_add(errors_upto(s, g, m - 1), node_errors(s, s.nodes[m - 1], g), id);
        lemma_errors_contrib_shape(s, s.nodes[m - 1], g);
        lemma_errors_for_small(node_errors(s, s.nodes[m - 1], g), id);
        if m - 1 == i {
            assert(Seq::<TickErrorView>::empty() + node_errors(s, s.nodes[i], g) =~= node_errors(
                s,
                s.nodes[i],
                g,
            ));
        } else {
            assert(s.nodes[m - 1].id != id);
            if i < m - 1 {
                assert(node_errors(s, s.nodes[i], g) + Seq::<TickErrorView>::empty() =~= node_errors(
                    s,
                    s.nodes[i],
                    g,
                ));
            } else {
                assert(Seq::<TickErrorView>::empty() + Seq::<TickErrorView>::empty() =~= Seq::<
                    TickErrorView,
                >::empty());
            }
        }
    }
}

/// Law: with distinct node identities, one node's share of a tick's output
/// is exactly its own three stage contributions, and its share of the
/// errors its own error contribution.
pub proof fn lemma_node_share(s: EngineView, i: int)
    requires
        distinct_node_ids(s.nodes),
        0 <= i < s.nodes.len(),
    ensures
        notes_for(spec_tick_notes(s), s.nodes[i].id) == node_translation_notes(
            s,
            s.nodes[i],
            s.registry.changed,
        ) + node_size_notes(s.nodes[i]) + node_font_notes(s, s.nodes[i], s.registry.changed),
        errors_for(spec_tick_errors(s), s.nodes[i].id) == node_errors(
            s,
            s.nodes[i],
            s.registry.changed,
        ),
{
    let g = s.registry.changed;
    let m = s.nodes.len() as int;
    let id = s.nodes[i].id;
    lemma_notes_for_add(
        translation_notes_upto(s, g, m) + size_notes_upto(s, m),
        font_notes_upto(s, g, m),
        id,
    );
    lemma_notes_for_add(translation_notes_upto(s, g, m), size_notes_upto(s, m), id);
    lemma_trans_upto_for(s, g, i, m);
    lemma_size_upto_for(s, i, m);
    lemma_font_upto_for(s, g, i, m);
    lemma_errors_upto_for(s, g, i, m);
}

/// Law: when only a global locale change is pending, a node without a
/// locale override gets exactly one translation notification if its
/// resolved translation differs from the cache, exactly one font
/// notification if its resolved font handle differs, and nothing else — in
/// particular, nothing at all where both resolved values are unchanged.
pub proof fn lemma_global_change_per_node(s: EngineView, i: int)
    requires
        distinct_node_ids(s.nodes),
        0 <= i < s.nodes.len(),
        s.registry.changed,
        s.nodes[i].locale is None,
        !s.nodes[i].text_dirty,
        !s.nodes[i].locale_dirty,
        !s.nodes[i].family_dirty,
        !s.nodes[i].size_dirty,
    ensures
        notes_for(spec_tick_notes(s), s.nodes[i].id) == node_translation_notes(s, s.nodes[i], true)
            + node_font_notes(s, s.nodes[i], true),
        notes_for(spec_tick_notes(s), s.nodes[i].id).len() == (if translation_differs(
            s,
            s.nodes[i],
        ) {
            1int
        } else {
            0int
        }) + (if font_differs(s, s.nodes[i]) {
            1int
        } else {
            0int
        }),
{
    let n = s.nodes[i];
    lemma_node_share(s, i);
    assert(node_size_notes(n) =~= Seq::<NotificationView>::empty());
    assert(node_translation_notes(s, n, true) + Seq::<NotificationView>::empty()
        + node_font_notes(s, n, true) =~= node_translation_notes(s, n, true) + node_font_notes(
        s,
        n,
        true,
    ));
    lemma_trans_contrib_shape(s, n, true);
    lemma_font_contrib_shape(s, n, true);
}

/// Law: a node with a locale override is shielded from global locale
/// changes — with none of its own bindings dirty, a tick notifies nothing
/// for it and collects no error for it, whatever the registry flag says.
pub proof fn lemma_override_shields(s: EngineView, i: int)
    requires
        distinct_node_ids(s.nodes),
        0 <= i < s.nodes.len(),
        s.nodes[i].locale is Some,
        !s.nodes[i].text_dirty,
        !s.nodes[i].locale_dirty,
        !s.nodes[i].family_dirty,
        !s.nodes[i].size_dirty,
    ensures
        notes_for(spec_tick_notes(s), s.nodes[i].id) == Seq::<NotificationView>::empty(),
        errors_for(spec_tick_errors(s), s.nodes[i].id) == Seq::<TickErrorView>::empty(),
{
    let n = s.nodes[i];
    let g = s.registry.changed;
    lemma_node_share(s, i);
    assert(!translation_selected(n, g));
    assert(!font_selected(n, g));
    assert(node_translation_notes(s, n, g) + node_size_notes(n) + node_font_notes(s, n, g) =~= Seq::<
        NotificationView,
    >::empty());
}

/// Law: a tick leaves the engine quiescent — the registry flag is consumed
/// and every dirty flag cleared.  The hypotheses are exactly what
/// [`crate::Engine::tick`] ensures of its final state.
pub proof fn lemma_tick_makes_quiescent(s: EngineView, s2: EngineView)
    requires
        !s2.registry.changed,
        s2.nodes.len() == s.nodes.len(),
        forall|i: int|
            0 <= i < s.nodes.len() ==> s2.nodes[i] == node_after_tick(
                s,
                s.nodes[i],
                s.registry.changed,
            ),
    ensures
        quiescent(s2),
{
}

/// Law: a tick over a quiescent state notifies nothing and collects no
/// errors.  Together with [`lemma_tick_makes_quiescent`]: running a tick
/// twice with no intervening input change makes the second tick silent.
pub proof fn lemma_quiescent_tick_is_silent(s: EngineView)
    requires
        quiescent(s),
    ensures
        spec_tick_notes(s) == Seq::<NotificationView>::empty(),
        spec_tick_errors(s) == Seq::<TickErrorView>::empty(),
{
    lemma_silent_upto(s, s.nodes.len() as int);
    assert(Seq::<NotificationView>::empty() + Seq::<NotificationView>::empty() + Seq::<
        NotificationView,
    >::empty() =~= Seq::<NotificationView>::empty());
}

proof fn lemma_silent_upto(s: EngineView, m: int)
    requires
        quiescent(s),
        0 <= m <= s.nodes.len(),
    ensures
        translation_notes_upto(s, false, m) == Seq::<NotificationView>::empty(),
        size_notes_upto(s, m) == Seq::<NotificationView>::empty(),
        font_notes_upto(s, false, m) == Seq::<NotificationView>::empty(),
        errors_upto(s, false, m) == Seq::<TickErrorView>::empty(),
    decreases m,
{
    if m > 0 {
        lemma_silent_upto(s, m - 1);
        let n = s.nodes[m - 1];
        assert(!translation_selected(n, false));
        assert(!font_selected(n, false));
        assert(Seq::<NotificationView>::empty() + Seq::<NotificationView>::empty() =~= Seq::<
            NotificationView,
        >::empty());
        assert(Seq::<TickErrorView>::empty() + Seq::<TickErrorView>::empty() =~= Seq::<
            TickErrorView,
        >::empty());
    }
}

/// Law: resolution is deterministic — the translated string is a function
/// of the store, the locale, the key and the argument list alone, so two
/// results obtained for the same tuple are always the same string.
pub proof fn lemma_resolve_deterministic(
    store: Map<(Seq<char>, Seq<char>), Seq<char>>,
    locale: Seq<char>,
    binding: crate::args::TextBindingView,
    r1: Result<Seq<char>, TranslationErrorView>,
    r2: Result<Seq<char>, TranslationErrorView>,
)
    requires
        r1 == spec_resolve(store, locale, binding),
        r2 == spec_resolve(store, locale, binding),
    ensures
        r1 == r2,
{
}

/// Law: a text binding whose key the store does not hold for the node's
/// effective locale leaves the previous translation cache untouched, emits
/// no translation notification for the node, and reports exactly one
/// unknown-key error for it.
pub proof fn lemma_unknown_key_keeps_cache(s: EngineView, i: int)
    requires
        distinct_node_ids(s.nodes),
        0 <= i < s.nodes.len(),
        s.nodes[i].text is Some,
        !s.store.contains_key(
            (
                effective_locale(s.nodes[i], s.registry.active),
                match s.nodes[i].text {
                    Some(t) => t.key,
                    None => Seq::empty(),
                },
            ),
        ),
    ensures
        node_after_tick(s, s.nodes[i], s.registry.changed).translation == s.nodes[i].translation,
        node_translation_notes(s, s.nodes[i], s.registry.changed) == Seq::<
            NotificationView,
        >::empty(),
        translation_selected(s.nodes[i], s.registry.changed) ==> errors_for(
            spec_tick_errors(s),
            s.nodes[i].id,
        ) == seq![
            TickErrorView {
                node: s.nodes[i].id,
                error: TranslationErrorView::UnknownKey(
                    match s.nodes[i].text {
                        Some(t) => t.key,
                        None => Seq::empty(),
                    },
                ),
            },
        ],
{
    let n = s.nodes[i];
    let g = s.registry.changed;
    lemma_node_share(s, i);
}

} // verus!
