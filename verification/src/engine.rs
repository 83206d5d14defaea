use crate::args::{TextBinding, TextBindingView};
use crate::catalog::{spec_resolve_font, FontCatalog, FontCatalogView, FontFamilyView};
use crate::registry::{LocaleRegistry, LocaleRegistryView, UnknownLocaleError};
use crate::resolve::{resolve_translation, spec_resolve, TranslationError, TranslationErrorView};
use crate::store::{store_entries, store_insert, store_new};
use vstd::prelude::*;

verus! {

/// One scene-graph node as the engine sees it: the input bindings, one
/// dirty flag per binding, and the resolved caches.  A fresh node has every
/// flag set, so the first tick after it is spawned recomputes everything it
/// carries.
pub struct Node {
    pub id: u64,
    pub text: Option<TextBinding>,
    pub text_dirty: bool,
    pub locale: Option<String>,
    pub locale_dirty: bool,
    pub family: Option<String>,
    pub family_dirty: bool,
    pub size: u32,
    pub size_dirty: bool,
    pub translation: Option<String>,
    pub font: Option<u64>,
}

/// The mathematical value of a [`Node`].
pub struct NodeView {
    pub id: u64,
    pub text: Option<TextBindingView>,
    pub text_dirty: bool,
    pub locale: Option<Seq<char>>,
    pub locale_dirty: bool,
    pub family: Option<Seq<char>>,
    pub family_dirty: bool,
    pub size: u32,
    pub size_dirty: bool,
    pub translation: Option<Seq<char>>,
    pub font: Option<u64>,
}

impl View for Node {
    type V = NodeView;

    open spec fn view(&self) -> NodeView {
        NodeView {
            id: self.id,
            text: match self.text {
                Some(t) => Some(t@),
                None => None,
            },
            text_dirty: self.text_dirty,
            locale: match self.locale {
                Some(l) => Some(l@),
                None => None,
            },
            locale_dirty: self.locale_dirty,
            family: match self.family {
                Some(f) => Some(f@),
                None => None,
            },
            family_dirty: self.family_dirty,
            size: self.size,
            size_dirty: self.size_dirty,
            translation: match self.translation {
                Some(t) => Some(t@),
                None => None,
            },
            font: self.font,
        }
    }
}

/// A change a tick reports to render attachments.
#[derive(Clone, Debug, PartialEq, Eq)]
pub enum Notification {
    /// The node's resolved translation changed to `value`.
    TranslationUpdated { node: u64, value: String },
    /// The node's resolved font handle changed to `handle`.
    FontUpdated { node: u64, handle: u64 },
    /// The node's font size binding changed to `size`.
    FontSizeUpdated { node: u64, size: u32 },
}

/// The mathematical value of a [`Notification`].
pub enum NotificationView {
    TranslationUpdated { node: u64, value: Seq<char> },
    FontUpdated { node: u64, handle: u64 },
    FontSizeUpdated { node: u64, size: u32 },
}

impl View for Notification {
    type V = NotificationView;

    open spec fn view(&self) -> NotificationView {
        match self {
            Notification::TranslationUpdated { node, value } => {
                NotificationView::TranslationUpdated { node: *node, value: value@ }
            },
            Notification::FontUpdated { node, handle } => {
                NotificationView::FontUpdated { node: *node, handle: *handle }
            },
            Notification::FontSizeUpdated { node, size } => {
                NotificationView::FontSizeUpdated { node: *node, size: *size }
            },
        }
    }
}

/// A translation failure collected during a tick, tagged with the node it
/// belongs to.  Failures never abort the tick.
#[derive(Clone, Debug, PartialEq, Eq)]
pub struct TickError {
    pub node: u64,
    pub error: TranslationError,
}

/// The mathematical value of a [`TickError`].
pub struct TickErrorView {
    pub node: u64,
    pub error: TranslationErrorView,
}

impl View for TickError {
    type V = TickErrorView;

    open spec fn view(&self) -> TickErrorView {
        TickErrorView { node: self.node, error: self.error@ }
    }
}

/// The views of a node vector.
pub open spec fn nodes_view(s: Seq<Node>) -> Seq<NodeView> {
    s.map_values(|n: Node| n@)
}

/// The views of a notification vector.
pub open spec fn notes_view(s: Seq<Notification>) -> Seq<NotificationView> {
    s.map_values(|x: Notification| x@)
}

/// The views of an error vector.
pub open spec fn errors_view(s: Seq<TickError>) -> Seq<TickErrorView> {
    s.map_values(|x: TickError| x@)
}

/// The sequence an optional notification contributes.
pub open spec fn opt_note_view(o: Option<Notification>) -> Seq<NotificationView> {
    match o {
        Some(x) => seq![x@],
        None => Seq::empty(),
    }
}

/// The sequence an optional error contributes.
pub open spec fn opt_error_view(o: Option<TickError>) -> Seq<TickErrorView> {
    match o {
        Some(x) => seq![x@],
        None => Seq::empty(),
    }
}

/// The propagation engine: the process-wide locale registry and font
/// catalog, the translation store, and the tracked nodes.
pub struct Engine {
    registry: LocaleRegistry,
    catalog: FontCatalog,
    store: rust_i18n::SimpleBackend,
    nodes: Vec<Node>,
}

/// The mathematical value of an [`Engine`].
pub struct EngineView {
    pub registry: LocaleRegistryView,
    pub catalog: FontCatalogView,
    pub store: Map<(Seq<char>, Seq<char>), Seq<char>>,
    pub nodes: Seq<NodeView>,
}

impl View for Engine {
    type V = EngineView;

    closed spec fn view(&self) -> EngineView {
        EngineView {
            registry: self.registry@,
            catalog: self.catalog@,
            store: store_entries(self.store),
            nodes: nodes_view(self.nodes@),
        }
    }
}

/// The locale a node resolves under: its override if it has one, else the
/// global active locale.
pub open spec fn effective_locale(n: NodeView, active: Seq<char>) -> Seq<char> {
    match n.locale {
        Some(l) => l,
        None => active,
    }
}

/// Whether a tick recomputes the node's translation: it has a text binding,
/// and either the global locale changed while the node has no override, or
/// its text or locale binding changed.
pub open spec fn translation_selected(n: NodeView, global_changed: bool) -> bool {
    n.text is Some && ((global_changed && n.locale is None) || n.text_dirty || n.locale_dirty)
}

/// Whether a tick recomputes the node's font: it has a family binding, and
/// either the global locale changed while the node has no override, or its
/// locale or family binding changed.
pub open spec fn font_selected(n: NodeView, global_changed: bool) -> bool {
    n.family is Some && ((global_changed && n.locale is None) || n.locale_dirty || n.family_dirty)
}

/// The node after a tick over state `s` with consumed global flag `g`: the
/// caches of whatever was selected and resolved are overwritten — a failed
/// translation keeps the previous cache — and every dirty flag is cleared.
pub open spec fn node_after_tick(s: EngineView, n: NodeView, g: bool) -> NodeView {
    let translation = if translation_selected(n, g) {
        match n.text {
            Some(t) => match spec_resolve(s.store, effective_locale(n, s.registry.active), t) {
                Ok(v) => Some(v),
                Err(_) => n.translation,
            },
            None => n.translation,
        }
    } else {
        n.translation
    };
    let font = if font_selected(n, g) {
        match n.family {
            Some(fam) => Some(
                spec_resolve_font(s.catalog, fam, effective_locale(n, s.registry.active)),
            ),
            None => n.font,
        }
    } else {
        n.font
    };
    NodeView {
        text_dirty: false,
        locale_dirty: false,
        family_dirty: false,
        size_dirty: false,
        translation,
        font,
        ..n
    }
}

/// The translation notifications one node contributes to a tick: one when
/// it was selected, resolved, and the value differs from the cache.
pub open spec fn node_translation_notes(s: EngineView, n: NodeView, g: bool) -> Seq<
    NotificationView,
> {
    if translation_selected(n, g) {
        match n.text {
            Some(t) => match spec_resolve(s.store, effective_locale(n, s.registry.active), t) {
                Ok(v) => if n.translation != Some(v) {
                    seq![NotificationView::TranslationUpdated { node: n.id, value: v }]
                } else {
                    Seq::empty()
                },
                Err(_) => Seq::empty(),
            },
            None => Seq::empty(),
        }
    } else {
        Seq::empty()
    }
}

/// The errors one node contributes to a tick: one when it was selected and
/// resolution failed.
pub open spec fn node_errors(s: EngineView, n: NodeView, g: bool) -> Seq<TickErrorView> {
    if translation_selected(n, g) {
        match n.text {
            Some(t) => match spec_resolve(s.store, effective_locale(n, s.registry.active), t) {
                Ok(_) => Seq::empty(),
                Err(e) => seq![TickErrorView { node: n.id, error: e }],
            },
            None => Seq::empty(),
        }
    } else {
        Seq::empty()
    }
}

/// The font-size notification one node contributes: unconditionally one
/// when its size binding changed.
pub open spec fn node_size_notes(n: NodeView) -> Seq<NotificationView> {
    if n.size_dirty {
        seq![NotificationView::FontSizeUpdated { node: n.id, size: n.size }]
    } else {
        Seq::empty()
    }
}

/// The font notification one node contributes: one when it was selected and
/// the resolved handle differs from the cache.
pub open spec fn node_font_notes(s: EngineView, n: NodeView, g: bool) -> Seq<NotificationView> {
    if font_selected(n, g) {
        match n.family {
            Some(fam) => {
                let h = spec_resolve_font(s.catalog, fam, effective_locale(n, s.registry.active));
                if n.font != Some(h) {
                    seq![NotificationView::FontUpdated { node: n.id, handle: h }]
                } else {
                    Seq::empty()
                }
            },
            None => Seq::empty(),
        }
    } else {
        Seq::empty()
    }
}

/// The translation notifications of the first `i` nodes, in node order.
pub open spec fn translation_notes_upto(s: EngineView, g: bool, i: int) -> Seq<NotificationView>
    decreases i,
{
    if i <= 0 {
        Seq::empty()
    } else {
        translation_notes_upto(s, g, i - 1) + node_translation_notes(s, s.nodes[i - 1], g)
    }
}

/// The font-size notifications of the first `i` nodes, in node order.
pub open spec fn size_notes_upto(s: EngineView, i: int) -> Seq<NotificationView>
    decreases i,
{
    if i <= 0 {
        Seq::empty()
    } else {
        size_notes_upto(s, i - 1) + node_size_notes(s.nodes[i - 1])
    }
}

/// The font notifications of the first `i` nodes, in node order.
pub open spec fn font_notes_upto(s: EngineView, g: bool, i: int) -> Seq<NotificationView>
    decreases i,
{
    if i <= 0 {
        Seq::empty()
    } else {
        font_notes_upto(s, g, i - 1) + node_font_notes(s, s.nodes[i - 1], g)
    }
}

/// The errors of the first `i` nodes, in node order.
pub open spec fn errors_upto(s: EngineView, g: bool, i: int) -> Seq<TickErrorView>
    decreases i,
{
    if i <= 0 {
        Seq::empty()
    } else {
        errors_upto(s, g, i - 1) + node_errors(s, s.nodes[i - 1], g)
    }
}

/// Everything a tick over state `s` notifies, in order: the translation
/// stage over all nodes, then the font-size stage, then the font stage.
pub open spec fn spec_tick_notes(s: EngineView) -> Seq<NotificationView> {
    let g = s.registry.changed;
    let n = s.nodes.len() as int;
    translation_notes_upto(s, g, n) + size_notes_upto(s, n) + font_notes_upto(s, g, n)
}

/// Every error a tick over state `s` collects, in node order.
pub open spec fn spec_tick_errors(s: EngineView) -> Seq<TickErrorView> {
    errors_upto(s, s.registry.changed, s.nodes.len() as int)
}

/// The index of the node with identity `id`, front to back.
pub open spec fn find_node(nodes: Seq<NodeView>, id: u64) -> Option<int>
    decreases nodes.len(),
{
    if nodes.len() == 0 {
        None
    } else if nodes[0].id == id {
        Some(0int)
    } else {
        match find_node(nodes.drop_first(), id) {
            Some(i) => Some(i + 1),
            None => None,
        }
    }
}

/// A freshly spawned node: no bindings, default size, empty caches, and
/// every dirty flag set so the first tick recomputes it.
pub open spec fn spec_new_node(id: u64) -> NodeView {
    NodeView {
        id,
        text: None,
        text_dirty: true,
        locale: None,
        locale_dirty: true,
        family: None,
        family_dirty: true,
        size: 12u32,
        size_dirty: true,
        translation: None,
        font: None,
    }
}

/// If the first node with `id` is at `idx`, `find_node` returns it.
proof fn lemma_find_node_at(nodes: Seq<NodeView>, id: u64, idx: int)
    requires
        0 <= idx < nodes.len(),
        nodes[idx].id == id,
        forall|k: int| 0 <= k < idx ==> nodes[k].id != id,
    ensures
        find_node(nodes, id) == Some(idx),
    decreases idx,
{
    if idx > 0 {
        lemma_find_node_at(nodes.drop_first(), id, idx - 1);
    }
}

/// With no node carrying `id`, `find_node` returns `None`.
proof fn lemma_find_node_none(nodes: Seq<NodeView>, id: u64)
    requires
        forall|k: int| 0 <= k < nodes.len() ==> nodes[k].id != id,
    ensures
        find_node(nodes, id) is None,
    decreases nodes.len(),
{
    if nodes.len() > 0 {
        lemma_find_node_none(nodes.drop_first(), id);
    }
}

impl Engine {
    /// An engine with one known locale (active, unchanged), an empty font
    /// catalog whose unregistered-family sentinel is `unresolved`, an empty
    /// translation store, and no nodes.
    pub fn new(initial_locale: &str, unresolved: u64) -> (r: Engine)
        ensures
            r@.registry.active == initial_locale@,
            r@.registry.known == seq![initial_locale@],
            !r@.registry.changed,
            r@.catalog.families == Seq::<FontFamilyView>::empty(),
            r@.catalog.unresolved == unresolved,
            r@.catalog.loaded == Seq::<u64>::empty(),
            r@.catalog.loading,
            r@.store == Map::<(Seq<char>, Seq<char>), Seq<char>>::empty(),
            r@.nodes == Seq::<NodeView>::empty(),
    {
        let r = Engine {
            registry: LocaleRegistry::new(initial_locale),
            catalog: FontCatalog::new(unresolved),
            store: store_new(),
            nodes: Vec::new(),
        };
        proof {
            assert(r@.nodes =~= Seq::<NodeView>::empty());
        }
        r
    }

    /// Registers a locale with the registry; see
    /// [`LocaleRegistry::add_locale`].
    pub fn add_locale(&mut self, locale: &str)
        ensures
            final(self)@ == (EngineView {
                registry: (LocaleRegistryView {
                    known: if old(self)@.registry.known.contains(locale@) {
                        old(self)@.registry.known
                    } else {
                        old(self)@.registry.known.push(locale@)
                    },
                    ..old(self)@.registry
                }),
                ..old(self)@
            }),
    {
        self.registry.add_locale(locale);
    }

    /// Makes `locale` the active locale and marks the change for the next
    /// tick; an unknown locale is rejected and nothing changes.
    pub fn set_active_locale(&mut self, locale: &str) -> (r: Result<(), UnknownLocaleError>)
        ensures
            match r {
                Ok(_) => old(self)@.registry.known.contains(locale@) && final(self)@ == (
                EngineView {
                    registry: (LocaleRegistryView {
                        active: locale@,
                        changed: true,
                        ..old(self)@.registry
                    }),
                    ..old(self)@
                }),
                Err(e) => !old(self)@.registry.known.contains(locale@) && e.locale@ == locale@
                    && final(self)@ == old(self)@,
            },
    {
        self.registry.set_active(locale)
    }

    /// The active locale.
    pub fn active_locale(&self) -> (r: &String)
        ensures
            r@ == self@.registry.active,
    {
        self.registry.active_locale()
    }

    /// The known locales, in registration order.
    pub fn known_locales(&self) -> (r: &Vec<String>)
        ensures
            r@.map_values(|l: String| l@) == self@.registry.known,
    {
        self.registry.known_locales()
    }

    /// Stores the translation `pattern` for `key` under `locale`,
    /// replacing a previous pattern for that pair.
    pub fn add_translation(&mut self, locale: &str, key: &str, pattern: &str)
        ensures
            final(self)@ == (EngineView {
                store: old(self)@.store.insert((locale@, key@), pattern@),
                ..old(self)@
            }),
    {
        store_insert(&mut self.store, locale, key, pattern);
    }

    /// Registers a font family with the catalog; see
    /// [`FontCatalog::register`].
    pub fn register_font_family(
        &mut self,
        family: &str,
        per_locale: Vec<(String, u64)>,
        fallback: u64,
    )
        ensures
            final(self)@ == (EngineView {
                catalog: (FontCatalogView {
                    families: crate::catalog::spec_register(
                        old(self)@.catalog.families,
                        FontFamilyView {
                            family: family@,
                            per_locale: crate::catalog::per_locale_view(per_locale@),
                            fallback,
                        },
                    ),
                    ..old(self)@.catalog
                }),
                ..old(self)@
            }),
    {
        self.catalog.register(family, per_locale, fallback);
    }

    /// Resolves a font handle for `(family, locale)` on demand; never
    /// fails.
    pub fn resolve_font(&self, family: &str, locale: &str) -> (h: u64)
        ensures
            h == spec_resolve_font(self@.catalog, family@, locale@),
    {
        self.catalog.resolve(family, locale)
    }

    /// Records that the loader reports font handle `h` as loaded.
    pub fn mark_font_loaded(&mut self, h: u64)
        ensures
            final(self)@ == (EngineView {
                catalog: (FontCatalogView {
                    loaded: if old(self)@.catalog.loaded.contains(h) {
                        old(self)@.catalog.loaded
                    } else {
                        old(self)@.catalog.loaded.push(h)
                    },
                    ..old(self)@.catalog
                }),
                ..old(self)@
            }),
    {
        self.catalog.mark_loaded(h);
    }

    /// Emits the one-time readiness signal once every registered font
    /// handle is loaded; see [`FontCatalog::poll_ready`].
    pub fn fonts_ready(&mut self) -> (r: bool)
        ensures
            r == (old(self)@.catalog.loading && crate::catalog::all_fonts_loaded(
                old(self)@.catalog,
            )),
            final(self)@ == (EngineView {
                catalog: (FontCatalogView {
                    loading: old(self)@.catalog.loading && !r,
                    ..old(self)@.catalog
                }),
                ..old(self)@
            }),
    {
        self.catalog.poll_ready()
    }

    /// The index of the node with identity `id`, if it is tracked.
    fn node_index(&self, id: u64) -> (r: Option<usize>)
        ensures
            match r {
                Some(i) => i < self@.nodes.len() && find_node(self@.nodes, id) == Some(i as int),
                None => find_node(self@.nodes, id) is None,
            },
    {
        let n = self.nodes.len();
        for i in 0..n
            invariant
                n == self.nodes.len(),
                forall|k: int| 0 <= k < i ==> self@.nodes[k].id != id,
        {
            if self.nodes[i].id == id {
                proof {
                    lemma_find_node_at(self@.nodes, id, i as int);
                }
                return Some(i);
            }
        }
        proof {
            lemma_find_node_none(self@.nodes, id);
        }
        None
    }

    /// True if the engine tracks a node with identity `id`.
    pub fn has_node(&self, id: u64) -> (r: bool)
        ensures
            r == (find_node(self@.nodes, id) is Some),
    {
        self.node_index(id).is_some()
    }

    /// Starts tracking a node.  The node starts with no bindings, the
    /// default font size, empty caches, and every dirty flag set, so the
    /// next tick gives it its mandatory initial recompute.  A node identity
    /// already tracked is refused.
    pub fn spawn_node(&mut self, id: u64) -> (r: bool)
        ensures
            match find_node(old(self)@.nodes, id) {
                Some(_) => !r && final(self)@ == old(self)@,
                None => r && final(self)@ == (EngineView {
                    nodes: old(self)@.nodes.push(spec_new_node(id)),
                    ..old(self)@
                }),
            },
    {
        if self.node_index(id).is_some() {
            return false;
        }
        self.nodes.push(
            Node {
                id,
                text: None,
                text_dirty: true,
                locale: None,
                locale_dirty: true,
                family: None,
                family_dirty: true,
                size: 12,
                size_dirty: true,
                translation: None,
                font: None,
            },
        );
        proof {
            assert(self@.nodes =~= old(self)@.nodes.push(spec_new_node(id)));
        }
        true
    }

    /// Stops tracking a node, dropping its bindings and caches.
    pub fn despawn_node(&mut self, id: u64) -> (r: bool)
        ensures
            match find_node(old(self)@.nodes, id) {
                Some(i) => r && final(self)@ == (EngineView {
                    nodes: old(self)@.nodes.remove(i),
                    ..old(self)@
                }),
                None => !r && final(self)@ == old(self)@,
            },
    {
        match self.node_index(id) {
            Some(i) => {
                self.nodes.remove(i);
                proof {
                    assert(self@.nodes =~= old(self)@.nodes.remove(
                        find_node(old(self)@.nodes, id).unwrap(),
                    ));
                }
                true
            },
            None => false,
        }
    }

    /// Sets the node's text binding and marks it stale.
    pub fn set_text_binding(&mut self, id: u64, binding: TextBinding) -> (r: bool)
        ensures
            match find_node(old(self)@.nodes, id) {
                Some(i) => r && final(self)@ == (EngineView {
                    nodes: old(self)@.nodes.update(
                        i,
                        (NodeView {
                            text: Some(binding@),
                            text_dirty: true,
                            ..old(self)@.nodes[i]
                        }),
                    ),
                    ..old(self)@
                }),
                None => !r && final(self)@ == old(self)@,
            },
    {
        let ghost bv = binding@;
        match self.node_index(id) {
            Some(i) => {
                self.nodes[i].text = Some(binding);
                self.nodes[i].text_dirty = true;
                proof {
                    let j = find_node(old(self)@.nodes, id).unwrap();
                    assert(self@.nodes =~= old(self)@.nodes.update(
                        j,
                        NodeView { text: Some(bv), text_dirty: true, ..old(self)@.nodes[j] },
                    ));
                }
                true
            },
            None => false,
        }
    }

    /// Sets the node's locale override and marks it stale.
    pub fn set_locale_binding(&mut self, id: u64, locale: &str) -> (r: bool)
        ensures
            match find_node(old(self)@.nodes, id) {
                Some(i) => r && final(self)@ == (EngineView {
                    nodes: old(self)@.nodes.update(
                        i,
                        (NodeView {
                            locale: Some(locale@),
                            locale_dirty: true,
                            ..old(self)@.nodes[i]
                        }),
                    ),
                    ..old(self)@
                }),
                None => !r && final(self)@ == old(self)@,
            },
    {
        match self.node_index(id) {
            Some(i) => {
                self.nodes[i].locale = Some(locale.to_owned());
                self.nodes[i].locale_dirty = true;
                proof {
                    let j = find_node(old(self)@.nodes, id).unwrap();
                    assert(self@.nodes =~= old(self)@.nodes.update(
                        j,
                        NodeView {
                            locale: Some(locale@),
                            locale_dirty: true,
                            ..old(self)@.nodes[j]
                        },
                    ));
                }
                true
            },
            None => false,
        }
    }

    /// Removes the node's locale override — it follows the global locale
    /// again — and marks it stale.
    pub fn clear_locale_binding(&mut self, id: u64) -> (r: bool)
        ensures
            match find_node(old(self)@.nodes, id) {
                Some(i) => r && final(self)@ == (EngineView {
                    nodes: old(self)@.nodes.update(
                        i,
                        (NodeView { locale: None, locale_dirty: true, ..old(self)@.nodes[i] }),
                    ),
                    ..old(self)@
                }),
                None => !r && final(self)@ == old(self)@,
            },
    {
        match self.node_index(id) {
            Some(i) => {
                self.nodes[i].locale = None;
                self.nodes[i].locale_dirty = true;
                proof {
                    let j = find_node(old(self)@.nodes, id).unwrap();
                    assert(self@.nodes =~= old(self)@.nodes.update(
                        j,
                        NodeView { locale: None, locale_dirty: true, ..old(self)@.nodes[j] },
                    ));
                }
                true
            },
            None => false,
        }
    }

    /// Sets the node's font family binding and marks it stale.
    pub fn set_font_family(&mut self, id: u64, family: &str) -> (r: bool)
        ensures
            match find_node(old(self)@.nodes, id) {
                Some(i) => r && final(self)@ == (EngineView {
                    nodes: old(self)@.nodes.update(
                        i,
                        (NodeView {
                            family: Some(family@),
                            family_dirty: true,
                            ..old(self)@.nodes[i]
                        }),
                    ),
                    ..old(self)@
                }),
                None => !r && final(self)@ == old(self)@,
            },
    {
        match self.node_index(id) {
            Some(i) => {
                self.nodes[i].family = Some(family.to_owned());
                self.nodes[i].family_dirty = true;
                proof {
                    let j = find_node(old(self)@.nodes, id).unwrap();
                    assert(self@.nodes =~= old(self)@.nodes.update(
                        j,
                        NodeView {
                            family: Some(family@),
                            family_dirty: true,
                            ..old(self)@.nodes[j]
                        },
                    ));
                }
                true
            },
            None => false,
        }
    }

    /// Sets the node's font size binding and marks it stale.
    pub fn set_font_size(&mut self, id: u64, size: u32) -> (r: bool)
        ensures
            match find_node(old(self)@.nodes, id) {
                Some(i) => r && final(self)@ == (EngineView {
                    nodes: old(self)@.nodes.update(
                        i,
                        (NodeView { size, size_dirty: true, ..old(self)@.nodes[i] }),
                    ),
                    ..old(self)@
                }),
                None => !r && final(self)@ == old(self)@,
            },
    {
        match self.node_index(id) {
            Some(i) => {
                self.nodes[i].size = size;
                self.nodes[i].size_dirty = true;
                proof {
                    let j = find_node(old(self)@.nodes, id).unwrap();
                    assert(self@.nodes =~= old(self)@.nodes.update(
                        j,
                        NodeView { size, size_dirty: true, ..old(self)@.nodes[j] },
                    ));
                }
                true
            },
            None => false,
        }
    }

    /// The node's cached translation, if the node is tracked and has been
    /// resolved at least once.
    pub fn translation_of(&self, id: u64) -> (r: Option<&String>)
        ensures
            match find_node(self@.nodes, id) {
                Some(i) => match r {
                    Some(s) => self@.nodes[i].translation == Some(s@),
                    None => self@.nodes[i].translation is None,
                },
                None => r is None,
            },
    {
        match self.node_index(id) {
            Some(i) => self.nodes[i].translation.as_ref(),
            None => None,
        }
    }

    /// The node's cached font handle, if the node is tracked and a font has
    /// been resolved for it.
    pub fn font_of(&self, id: u64) -> (r: Option<u64>)
        ensures
            match find_node(self@.nodes, id) {
                Some(i) => r == self@.nodes[i].font,
                None => r is None,
            },
    {
        match self.node_index(id) {
            Some(i) => self.nodes[i].font,
            None => None,
        }
    }

    /// One update cycle.  Consumes the registry's pending-change flag,
    /// recomputes exactly the stale resolved values, overwrites the caches
    /// of what was recomputed successfully, clears every dirty flag, and
    /// returns the notifications — translation stage first, then font size,
    /// then font — together with the translation errors collected over all
    /// nodes.  A failed translation keeps the node's previous cache; a
    /// failure on one node never stops the others.
    pub fn tick(&mut self) -> (r: (Vec<Notification>, Vec<TickError>))
        ensures
            final(self)@.registry == (LocaleRegistryView {
                changed: false,
                ..old(self)@.registry
            }),
            final(self)@.catalog == old(self)@.catalog,
            final(self)@.store == old(self)@.store,
            final(self)@.nodes.len() == old(self)@.nodes.len(),
            forall|i: int|
                0 <= i < old(self)@.nodes.len() ==> final(self)@.nodes[i] == node_after_tick(
                    old(self)@,
                    old(self)@.nodes[i],
                    old(self)@.registry.changed,
                ),
            notes_view(r.0@) == spec_tick_notes(old(self)@),
            errors_view(r.1@) == spec_tick_errors(old(self)@),
    {
        let ghost s0 = self@;
        let g = self.registry.take_changed();
        let active = self.registry.active_locale().clone();
        let mut trans_notes: Vec<Notification> = Vec::new();
        let mut size_notes: Vec<Notification> = Vec::new();
        let mut font_notes: Vec<Notification> = Vec::new();
        let mut errors: Vec<TickError> = Vec::new();
        proof {
            assert(notes_view(trans_notes@) =~= Seq::<NotificationView>::empty());
            assert(errors_view(errors@) =~= Seq::<TickErrorView>::empty());
        }
        let n = self.nodes.len();
        for i in 0..n
            invariant
                n == self.nodes.len(),
                n == s0.nodes.len(),
                g == s0.registry.changed,
                active@ == s0.registry.active,
                self@.registry == (LocaleRegistryView { changed: false, ..s0.registry }),
                self@.catalog == s0.catalog,
                self@.store == s0.store,
                forall|k: int| 0 <= k < i ==> self@.nodes[k] == node_after_tick(s0, s0.nodes[k], g),
                forall|k: int| i <= k < n ==> self@.nodes[k] == s0.nodes[k],
                notes_view(trans_notes@) == translation_notes_upto(s0, g, i as int),
                notes_view(size_notes@) == size_notes_upto(s0, i as int),
                notes_view(font_notes@) == font_notes_upto(s0, g, i as int),
                errors_view(errors@) == errors_upto(s0, g, i as int),
        {
            let ghost nd = s0.nodes[i as int];
            let ghost nodes_in = self.nodes@;
            proof {
                assert(self@.nodes[i as int] == nodes_in[i as int]@);
            }
            let (t_note, s_note, f_note, t_err) = Engine::process_node(
                &mut self.nodes[i],
                &self.store,
                &self.catalog,
                &active,
                g,
                Ghost(s0),
            );
            proof {
                assert(self.nodes@ == nodes_in.update(i as int, self.nodes@[i as int]));
                assert(self@.nodes[i as int] == self.nodes@[i as int]@);
                assert(self@.nodes[i as int] == node_after_tick(s0, nd, g));
                assert forall|k: int| 0 <= k < n && k != i implies self@.nodes[k] == nodes_view(
                    nodes_in,
                )[k] by {
                    assert(self.nodes@[k] == nodes_in[k]);
                }
                assert forall|k: int| 0 <= k < i + 1 implies self@.nodes[k] == node_after_tick(
                    s0,
                    s0.nodes[k],
                    g,
                ) by {
                    if k < i {
                        assert(self@.nodes[k] == nodes_view(nodes_in)[k]);
                        assert(nodes_view(nodes_in)[k] == node_after_tick(s0, s0.nodes[k], g));
                    }
                }
                assert forall|k: int| i + 1 <= k < n implies self@.nodes[k] == s0.nodes[k] by {
                    assert(self@.nodes[k] == nodes_view(nodes_in)[k]);
                    assert(nodes_view(nodes_in)[k] == s0.nodes[k]);
                }
            }
            match t_note {
                Some(x) => {
                    let ghost before = trans_notes@;
                    trans_notes.push(x);
                    proof {
                        assert(notes_view(trans_notes@) =~= notes_view(before)
                            + node_translation_notes(s0, nd, g));
                    }
                },
                None => {
                    proof {
                        assert(notes_view(trans_notes@) + node_translation_notes(s0, nd, g)
                            =~= notes_view(trans_notes@));
                    }
                },
            }
            match s_note {
                Some(x) => {
                    let ghost before = size_notes@;
                    size_notes.push(x);
                    proof {
                        assert(notes_view(size_notes@) =~= notes_view(before) + node_size_notes(
                            nd,
                        ));
                    }
                },
                None => {
                    proof {
                        assert(notes_view(size_notes@) + node_size_notes(nd) =~= notes_view(
                            size_notes@,
                        ));
                    }
                },
            }
            match f_note {
                Some(x) => {
                    let ghost before = font_notes@;
                    font_notes.push(x);
                    proof {
                        assert(notes_view(font_notes@) =~= notes_view(before) + node_font_notes(
                            s0,
                            nd,
                            g,
                        ));
                    }
                },
                None => {
                    proof {
                        assert(notes_view(font_notes@) + node_font_notes(s0, nd, g) =~= notes_view(
                            font_notes@,
                        ));
                    }
                },
            }
            match t_err {
                Some(x) => {
                    let ghost before = errors@;
                    errors.push(x);
                    proof {
                        assert(errors_view(errors@) =~= errors_view(before) + node_errors(
                            s0,
                            nd,
                            g,
                        ));
                    }
                },
                None => {
                    proof {
                        assert(errors_view(errors@) + node_errors(s0, nd, g) =~= errors_view(
                            errors@,
                        ));
                    }
                },
            }
        }
        let mut notes = trans_notes;
        let ghost part_a = notes@;
        notes.append(&mut size_notes);
        proof {
            assert(notes_view(notes@) =~= notes_view(part_a) + size_notes_upto(s0, n as int));
        }
        let ghost part_b = notes@;
        notes.append(&mut font_notes);
        proof {
            assert(notes_view(notes@) =~= notes_view(part_b) + font_notes_upto(s0, g, n as int));
            assert(notes_view(notes@) =~= spec_tick_notes(s0));
        }
        (notes, errors)
    }

    /// One node's share of a tick: recomputes what is stale on this node,
    /// updates its caches, clears its dirty flags, and hands back the
    /// notifications and error it contributes.
    fn process_node(
        node: &mut Node,
        store: &rust_i18n::SimpleBackend,
        catalog: &FontCatalog,
        active: &String,
        g: bool,
        Ghost(s0): Ghost<EngineView>,
    ) -> (r: (Option<Notification>, Option<Notification>, Option<Notification>, Option<TickError>))
        requires
            s0.store == store_entries(*store),
            s0.catalog == catalog@,
            s0.registry.active == active@,
        ensures
            final(node)@ == node_after_tick(s0, old(node)@, g),
            opt_note_view(r.0) == node_translation_notes(s0, old(node)@, g),
            opt_note_view(r.1) == node_size_notes(old(node)@),
            opt_note_view(r.2) == node_font_notes(s0, old(node)@, g),
            opt_error_view(r.3) == node_errors(s0, old(node)@, g),
    {
        let ghost nd = old(node)@;
        let node_id = node.id;
        let has_locale = node.locale.is_some();
        let eff: String = match &node.locale {
            Some(l) => l.clone(),
            None => active.clone(),
        };
        proof {
            assert(eff@ == effective_locale(nd, s0.registry.active));
        }
        let tdirty = node.text_dirty;
        let ldirty = node.locale_dirty;
        let tsel = (g && !has_locale) || tdirty || ldirty;

        // Translation stage.
        let mut t_note: Option<Notification> = None;
        let mut t_err: Option<TickError> = None;
        let mut outcome: Option<Result<String, TranslationError>> = None;
        if tsel {
            match &node.text {
                Some(b) => {
                    outcome = Some(resolve_translation(store, eff.as_str(), b));
                },
                None => {},
            }
        }
        proof {
            assert((outcome is Some) == translation_selected(nd, g));
        }
        match outcome {
            Some(Ok(v)) => {
                let differs = match &node.translation {
                    Some(prev) => !prev.eq(&v),
                    None => true,
                };
                proof {
                    assert(differs == (nd.translation != Some(v@)));
                }
                if differs {
                    t_note = Some(
                        Notification::TranslationUpdated { node: node_id, value: v.clone() },
                    );
                }
                node.translation = Some(v);
            },
            Some(Err(e)) => {
                t_err = Some(TickError { node: node_id, error: e });
            },
            None => {},
        }

        // Font-size stage.
        let mut s_note: Option<Notification> = None;
        if node.size_dirty {
            s_note = Some(Notification::FontSizeUpdated { node: node_id, size: node.size });
        }

        // Font stage.
        let mut f_note: Option<Notification> = None;
        let fdirty = node.family_dirty;
        let fsel = (g && !has_locale) || ldirty || fdirty;
        let mut fh: Option<u64> = None;
        if fsel {
            match &node.family {
                Some(fam) => {
                    fh = Some(catalog.resolve(fam.as_str(), eff.as_str()));
                },
                None => {},
            }
        }
        proof {
            assert((fh is Some) == font_selected(nd, g));
        }
        match fh {
            Some(h) => {
                let differs = match node.font {
                    Some(prev) => prev != h,
                    None => true,
                };
                if differs {
                    f_note = Some(Notification::FontUpdated { node: node_id, handle: h });
                }
                node.font = Some(h);
            },
            None => {},
        }

        // This node's dirty flags are consumed.
        node.text_dirty = false;
        node.locale_dirty = false;
        node.family_dirty = false;
        node.size_dirty = false;

        proof {
            assert(node@ == node_after_tick(s0, nd, g));
            assert(opt_note_view(t_note) =~= node_translation_notes(s0, nd, g));
            assert(opt_note_view(s_note) =~= node_size_notes(nd));
            assert(opt_note_view(f_note) =~= node_font_notes(s0, nd, g));
            assert(opt_error_view(t_err) =~= node_errors(s0, nd, g));
        }
        (t_note, s_note, f_note, t_err)
    }


    /// The node's font family binding, if the node is tracked and has one.
    pub fn family_of(&self, id: u64) -> (r: Option<&String>)
        ensures
            match find_node(self@.nodes, id) {
                Some(i) => match r {
                    Some(s) => self@.nodes[i].family == Some(s@),
                    None => self@.nodes[i].family is None,
                },
                None => r is None,
            },
    {
        match self.node_index(id) {
            Some(i) => self.nodes[i].family.as_ref(),
            None => None,
        }
    }
}

} // verus!
