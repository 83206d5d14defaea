use vstd::prelude::*;

verus! {

/// One registered font family: its per-locale font handles and the fallback
/// handle used for every other locale.
pub struct FontFamily {
    pub family: String,
    pub per_locale: Vec<(String, u64)>,
    pub fallback: u64,
}

/// The mathematical value of a [`FontFamily`].
pub struct FontFamilyView {
    pub family: Seq<char>,
    pub per_locale: Seq<(Seq<char>, u64)>,
    pub fallback: u64,
}

/// The (locale, handle) views of a per-locale handle table.
pub open spec fn per_locale_view(s: Seq<(String, u64)>) -> Seq<(Seq<char>, u64)> {
    s.map_values(|p: (String, u64)| (p.0@, p.1))
}

impl View for FontFamily {
    type V = FontFamilyView;

    open spec fn view(&self) -> FontFamilyView {
        FontFamilyView {
            family: self.family@,
            per_locale: per_locale_view(self.per_locale@),
            fallback: self.fallback,
        }
    }
}

/// The font catalog: the registered families, the sentinel handle returned
/// for an unregistered family, the handles the loader has reported loaded,
/// and whether the one-time readiness signal is still pending.
pub struct FontCatalog {
    families: Vec<FontFamily>,
    unresolved: u64,
    loaded: Vec<u64>,
    loading: bool,
}

/// The mathematical value of a [`FontCatalog`].
pub struct FontCatalogView {
    pub families: Seq<FontFamilyView>,
    pub unresolved: u64,
    pub loaded: Seq<u64>,
    pub loading: bool,
}

impl View for FontCatalog {
    type V = FontCatalogView;

    closed spec fn view(&self) -> FontCatalogView {
        FontCatalogView {
            families: self.families@.map_values(|f: FontFamily| f@),
            unresolved: self.unresolved,
            loaded: self.loaded@,
            loading: self.loading,
        }
    }
}

/// The first family named `family`, front to back.
pub open spec fn find_family(
    families: Seq<FontFamilyView>,
    family: Seq<char>,
) -> Option<FontFamilyView>
    decreases families.len(),
{
    if families.len() == 0 {
        None
    } else if families[0].family == family {
        Some(families[0])
    } else {
        find_family(families.drop_first(), family)
    }
}

/// The handle registered for `locale`, front to back.
pub open spec fn locale_handle(per_locale: Seq<(Seq<char>, u64)>, locale: Seq<char>) -> Option<u64>
    decreases per_locale.len(),
{
    if per_locale.len() == 0 {
        None
    } else if per_locale[0].0 == locale {
        Some(per_locale[0].1)
    } else {
        locale_handle(per_locale.drop_first(), locale)
    }
}

/// The handle a catalog resolves for `(family, locale)`: the family's
/// per-locale handle if one is registered, else the family's fallback
/// handle, else — for an unregistered family — the catalog's sentinel.
/// Resolution never fails.
pub open spec fn spec_resolve_font(
    cat: FontCatalogView,
    family: Seq<char>,
    locale: Seq<char>,
) -> u64 {
    match find_family(cat.families, family) {
        None => cat.unresolved,
        Some(f) => match locale_handle(f.per_locale, locale) {
            Some(h) => h,
            None => f.fallback,
        },
    }
}

/// `families` after registering `f`: the first family of the same name is
/// replaced, otherwise `f` is appended.
pub open spec fn spec_register(
    families: Seq<FontFamilyView>,
    f: FontFamilyView,
) -> Seq<FontFamilyView>
    decreases families.len(),
{
    if families.len() == 0 {
        seq![f]
    } else if families[0].family == f.family {
        seq![f] + families.drop_first()
    } else {
        seq![families[0]] + spec_register(families.drop_first(), f)
    }
}

/// Registering a family makes lookups of its name find it.
pub proof fn lemma_register_finds(families: Seq<FontFamilyView>, f: FontFamilyView)
    ensures
        find_family(spec_register(families, f), f.family) == Some(f),
    decreases families.len(),
{
    if families.len() == 0 {
        assert(spec_register(families, f)[0] == f);
    } else if families[0].family == f.family {
        assert(spec_register(families, f)[0] == f);
    } else {
        lemma_register_finds(families.drop_first(), f);
        assert(spec_register(families, f).drop_first() =~= spec_register(
            families.drop_first(),
            f,
        ));
    }
}

/// Registering a family leaves lookups of every other name unchanged.
pub proof fn lemma_register_keeps_others(
    families: Seq<FontFamilyView>,
    f: FontFamilyView,
    other: Seq<char>,
)
    requires
        other != f.family,
    ensures
        find_family(spec_register(families, f), other) == find_family(families, other),
    decreases families.len(),
{
    let reg = spec_register(families, f);
    if families.len() == 0 {
        assert(reg[0] == f);
        assert(reg.drop_first() =~= Seq::<FontFamilyView>::empty());
        assert(find_family(reg.drop_first(), other) is None);
    } else if families[0].family == f.family {
        assert(reg[0] == f);
        assert(reg.drop_first() =~= families.drop_first());
    } else {
        lemma_register_keeps_others(families.drop_first(), f, other);
        assert(reg[0] == families[0]);
        assert(reg.drop_first() =~= spec_register(families.drop_first(), f));
    }
}

/// Registering the same family table twice is idempotent.
pub proof fn lemma_register_idempotent(families: Seq<FontFamilyView>, f: FontFamilyView)
    ensures
        spec_register(spec_register(families, f), f) == spec_register(families, f),
    decreases families.len(),
{
    let once = spec_register(families, f);
    if families.len() == 0 {
        assert(once[0] == f);
        assert(spec_register(once, f) =~= once);
    } else if families[0].family == f.family {
        assert(once[0] == f);
        assert(spec_register(once, f) =~= once);
    } else {
        lemma_register_idempotent(families.drop_first(), f);
        assert(once[0] == families[0]);
        assert(once.drop_first() =~= spec_register(families.drop_first(), f));
        assert(spec_register(once, f) =~= once);
    }
}

/// True if every handle the family can resolve to has been reported loaded.
pub open spec fn family_loaded(f: FontFamilyView, loaded: Seq<u64>) -> bool {
    &&& loaded.contains(f.fallback)
    &&& forall|j: int| 0 <= j < f.per_locale.len() ==> loaded.contains(f.per_locale[j].1)
}

/// True if every handle of every registered family has been reported loaded.
pub open spec fn all_fonts_loaded(cat: FontCatalogView) -> bool {
    forall|i: int| 0 <= i < cat.families.len() ==> family_loaded(cat.families[i], cat.loaded)
}

/// Whether `v` holds `h`.
fn contains_handle(v: &Vec<u64>, h: u64) -> (r: bool)
    ensures
        r == v@.contains(h),
{
    let n = v.len();
    for i in 0..n
        invariant
            n == v.len(),
            forall|k: int| 0 <= k < i ==> v@[k] != h,
    {
        if v[i] == h {
            return true;
        }
    }
    proof {
        if v@.contains(h) {
            let k = choose|k: int| 0 <= k < v@.len() && v@[k] == h;
            assert(false);
        }
    }
    false
}

impl FontCatalog {
    /// An empty catalog.  `unresolved` is the sentinel handle that lookups
    /// of an unregistered family degrade to; the readiness signal is
    /// pending.
    pub fn new(unresolved: u64) -> (r: Self)
        ensures
            r@.families == Seq::<FontFamilyView>::empty(),
            r@.unresolved == unresolved,
            r@.loaded == Seq::<u64>::empty(),
            r@.loading,
    {
        let r = FontCatalog { families: Vec::new(), unresolved, loaded: Vec::new(), loading: true };
        proof {
            assert(r@.families =~= Seq::<FontFamilyView>::empty());
        }
        r
    }

    /// Registers a family: replaces the table of an already-registered name,
    /// otherwise appends.  Registering the same family twice is idempotent.
    pub fn register(&mut self, family: &str, per_locale: Vec<(String, u64)>, fallback: u64)
        ensures
            final(self)@.families == spec_register(
                old(self)@.families,
                FontFamilyView { family: family@, per_locale: per_locale_view(per_locale@), fallback },
            ),
            final(self)@.unresolved == old(self)@.unresolved,
            final(self)@.loaded == old(self)@.loaded,
            final(self)@.loading == old(self)@.loading,
    {
        let ghost fv = FontFamilyView {
            family: family@,
            per_locale: per_locale_view(per_locale@),
            fallback,
        };
        let entry = FontFamily { family: family.to_owned(), per_locale, fallback };
        assert(entry@ == fv);
        let n = self.families.len();
        for i in 0..n
            invariant
                n == self.families.len(),
                self@ == old(self)@,
                entry@ == fv,
                fv == (FontFamilyView {
                    family: family@,
                    per_locale: per_locale_view(per_locale@),
                    fallback,
                }),
                forall|k: int| 0 <= k < i ==> self@.families[k].family != fv.family,
        {
            if self.families[i].family == entry.family {
                proof {
                    lemma_register_at(old(self)@.families, fv, i as int);
                }
                self.families[i] = entry;
                proof {
                    assert(self@.families =~= old(self)@.families.update(i as int, fv));
                }
                return ;
            }
        }
        proof {
            lemma_register_appends(old(self)@.families, fv);
        }
        self.families.push(entry);
        proof {
            assert(self@.families =~= old(self)@.families.push(fv));
        }
    }

    /// Resolves `(family, locale)` to a font handle; never fails.
    pub fn resolve(&self, family: &str, locale: &str) -> (h: u64)
        ensures
            h == spec_resolve_font(self@, family@, locale@),
    {
        let family_owned = family.to_owned();
        let n = self.families.len();
        for i in 0..n
            invariant
                n == self.families.len(),
                family_owned@ == family@,
                forall|k: int| 0 <= k < i ==> self@.families[k].family != family@,
        {
            if self.families[i].family == family_owned {
                proof {
                    lemma_find_family_at(self@.families, family@, i as int);
                }
                let entry = &self.families[i];
                let locale_owned = locale.to_owned();
                let m = entry.per_locale.len();
                for j in 0..m
                    invariant
                        m == entry.per_locale.len(),
                        entry@ == self@.families[i as int],
                        locale_owned@ == locale@,
                        find_family(self@.families, family@) == Some(entry@),
                        forall|k: int| 0 <= k < j ==> entry@.per_locale[k].0 != locale@,
                {
                    if entry.per_locale[j].0 == locale_owned {
                        proof {
                            lemma_locale_handle_at(entry@.per_locale, locale@, j as int);
                        }
                        return entry.per_locale[j].1;
                    }
                }
                proof {
                    lemma_locale_handle_none(entry@.per_locale, locale@);
                }
                return entry.fallback;
            }
        }
        proof {
            lemma_find_family_none(self@.families, family@);
        }
        self.unresolved
    }

    /// Records that the loader reports `h` as loaded.
    pub fn mark_loaded(&mut self, h: u64)
        ensures
            final(self)@ == (FontCatalogView {
                loaded: if old(self)@.loaded.contains(h) {
                    old(self)@.loaded
                } else {
                    old(self)@.loaded.push(h)
                },
                ..old(self)@
            }),
    {
        if !contains_handle(&self.loaded, h) {
            self.loaded.push(h);
        }
    }

    /// True if every handle of every registered family has been reported
    /// loaded.
    pub fn is_fully_loaded(&self) -> (r: bool)
        ensures
            r == all_fonts_loaded(self@),
    {
        let n = self.families.len();
        for i in 0..n
            invariant
                n == self.families.len(),
                forall|k: int| 0 <= k < i ==> family_loaded(self@.families[k], self@.loaded),
        {
            let entry = &self.families[i];
            if !contains_handle(&self.loaded, entry.fallback) {
                assert(!family_loaded(self@.families[i as int], self@.loaded));
                return false;
            }
            let m = entry.per_locale.len();
            for j in 0..m
                invariant
                    n == self.families.len(),
                    0 <= i < n,
                    m == entry.per_locale.len(),
                    entry@ == self@.families[i as int],
                    self@.loaded.contains(entry@.fallback),
                    forall|k: int| 0 <= k < j ==> self@.loaded.contains(entry@.per_locale[k].1),
            {
                if !contains_handle(&self.loaded, entry.per_locale[j].1) {
                    assert(entry@.per_locale[j as int].1 == entry.per_locale@[j as int].1);
                    assert(!family_loaded(self@.families[i as int], self@.loaded));
                    return false;
                }
            }
            assert(family_loaded(self@.families[i as int], self@.loaded));
        }
        true
    }

    /// Emits the one-time readiness signal: true exactly once, on the first
    /// call made after every registered handle is loaded.
    pub fn poll_ready(&mut self) -> (r: bool)
        ensures
            r == (old(self)@.loading && all_fonts_loaded(old(self)@)),
            final(self)@ == (FontCatalogView { loading: old(self)@.loading && !r, ..old(self)@ }),
    {
        if self.loading && self.is_fully_loaded() {
            self.loading = false;
            true
        } else {
            false
        }
    }

    /// The sentinel handle returned for an unregistered family.
    pub fn unresolved_handle(&self) -> (h: u64)
        ensures
            h == self@.unresolved,
    {
        self.unresolved
    }
}

/// If the first family named `family` is at `idx`, `find_family` returns it.
proof fn lemma_find_family_at(families: Seq<FontFamilyView>, family: Seq<char>, idx: int)
    requires
        0 <= idx < families.len(),
        families[idx].family == family,
        forall|k: int| 0 <= k < idx ==> families[k].family != family,
    ensures
        find_family(families, family) == Some(families[idx]),
    decreases idx,
{
    if idx > 0 {
        lemma_find_family_at(families.drop_first(), family, idx - 1);
    }
}

/// With no family named `family`, `find_family` returns `None`.
proof fn lemma_find_family_none(families: Seq<FontFamilyView>, family: Seq<char>)
    requires
        forall|k: int| 0 <= k < families.len() ==> families[k].family != family,
    ensures
        find_family(families, family) is None,
    decreases families.len(),
{
    if families.len() > 0 {
        lemma_find_family_none(families.drop_first(), family);
    }
}

/// If the first entry for `locale` is at `idx`, `locale_handle` returns its
/// handle.
proof fn lemma_locale_handle_at(per_locale: Seq<(Seq<char>, u64)>, locale: Seq<char>, idx: int)
    requires
        0 <= idx < per_locale.len(),
        per_locale[idx].0 == locale,
        forall|k: int| 0 <= k < idx ==> per_locale[k].0 != locale,
    ensures
        locale_handle(per_locale, locale) == Some(per_locale[idx].1),
    decreases idx,
{
    if idx > 0 {
        lemma_locale_handle_at(per_locale.drop_first(), locale, idx - 1);
    }
}

/// With no entry for `locale`, `locale_handle` returns `None`.
proof fn lemma_locale_handle_none(per_locale: Seq<(Seq<char>, u64)>, locale: Seq<char>)
    requires
        forall|k: int| 0 <= k < per_locale.len() ==> per_locale[k].0 != locale,
    ensures
        locale_handle(per_locale, locale) is None,
    decreases per_locale.len(),
{
    if per_locale.len() > 0 {
        lemma_locale_handle_none(per_locale.drop_first(), locale);
    }
}

/// If the first family named like `f` is at `idx`, registering `f` replaces
/// it in place.
proof fn lemma_register_at(families: Seq<FontFamilyView>, f: FontFamilyView, idx: int)
    requires
        0 <= idx < families.len(),
        families[idx].family == f.family,
        forall|k: int| 0 <= k < idx ==> families[k].family != f.family,
    ensures
        spec_register(families, f) == families.update(idx, f),
    decreases idx,
{
    if idx == 0 {
        assert(spec_register(families, f) =~= families.update(0, f));
    } else {
        lemma_register_at(families.drop_first(), f, idx - 1);
        assert(spec_register(families, f) =~= families.update(idx, f));
    }
}

/// With no family named like `f`, registering `f` appends it.
proof fn lemma_register_appends(families: Seq<FontFamilyView>, f: FontFamilyView)
    requires
        forall|k: int| 0 <= k < families.len() ==> families[k].family != f.family,
    ensures
        spec_register(families, f) == families.push(f),
    decreases families.len(),
{
    if families.len() == 0 {
        assert(spec_register(families, f) =~= families.push(f));
    } else {
        lemma_register_appends(families.drop_first(), f);
        assert(spec_register(families, f) =~= families.push(f));
    }
}

} // verus!
