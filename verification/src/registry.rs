use vstd::prelude::*;

verus! {

/// The error returned when the active locale is set to one the registry
/// does not know; the registry is left unchanged.
#[derive(Clone, Debug)]
pub struct UnknownLocaleError {
    pub locale: String,
}

/// The process-wide locale state: the active locale, the known locales in
/// registration order, and a flag marking a change that the next tick
/// consumes.
pub struct LocaleRegistry {
    active: String,
    known: Vec<String>,
    changed: bool,
}

/// The mathematical value of a [`LocaleRegistry`].
pub struct LocaleRegistryView {
    pub active: Seq<char>,
    pub known: Seq<Seq<char>>,
    pub changed: bool,
}

impl View for LocaleRegistry {
    type V = LocaleRegistryView;

    closed spec fn view(&self) -> LocaleRegistryView {
        LocaleRegistryView {
            active: self.active@,
            known: self.known@.map_values(|l: String| l@),
            changed: self.changed,
        }
    }
}

impl LocaleRegistry {
    /// A registry whose single known locale is `initial`, active, with no
    /// pending change.
    pub fn new(initial: &str) -> (r: Self)
        ensures
            r@.active == initial@,
            r@.known == seq![initial@],
            !r@.changed,
    {
        let mut known: Vec<String> = Vec::new();
        known.push(initial.to_owned());
        let r = LocaleRegistry { active: initial.to_owned(), known, changed: false };
        proof {
            assert(r@.known =~= seq![initial@]);
        }
        r
    }

    /// True if `locale` is among the known locales.
    pub fn knows(&self, locale: &str) -> (r: bool)
        ensures
            r == self@.known.contains(locale@),
    {
        let target = locale.to_owned();
        let n = self.known.len();
        for i in 0..n
            invariant
                n == self.known.len(),
                target@ == locale@,
                forall|k: int| 0 <= k < i ==> self@.known[k] != locale@,
        {
            if self.known[i] == target {
                assert(self@.known[i as int] == locale@);
                return true;
            }
        }
        proof {
            if self@.known.contains(locale@) {
                let k = choose|k: int|
                    0 <= k < self@.known.len() && self@.known[k] == locale@;
                assert(false);
            }
        }
        false
    }

    /// Registers `locale`.  The known list keeps registration order and
    /// never lists a locale twice, so registering a known locale is a no-op.
    pub fn add_locale(&mut self, locale: &str)
        ensures
            final(self)@.known == if old(self)@.known.contains(locale@) {
                old(self)@.known
            } else {
                old(self)@.known.push(locale@)
            },
            final(self)@.active == old(self)@.active,
            final(self)@.changed == old(self)@.changed,
    {
        if !self.knows(locale) {
            self.known.push(locale.to_owned());
            proof {
                assert(self@.known =~= old(self)@.known.push(locale@));
            }
        }
    }

    /// Makes `locale` the active locale and marks the registry changed for
    /// the next tick.  An unknown locale is rejected: the error names it and
    /// nothing changes.
    pub fn set_active(&mut self, locale: &str) -> (r: Result<(), UnknownLocaleError>)
        ensures
            match r {
                Ok(_) => old(self)@.known.contains(locale@) && final(self)@ == (
                LocaleRegistryView { active: locale@, changed: true, ..old(self)@ }),
                Err(e) => !old(self)@.known.contains(locale@) && e.locale@ == locale@
                    && final(self)@ == old(self)@,
            },
    {
        if self.knows(locale) {
            self.active = locale.to_owned();
            self.changed = true;
            Ok(())
        } else {
            Err(UnknownLocaleError { locale: locale.to_owned() })
        }
    }

    /// The active locale.
    pub fn active_locale(&self) -> (r: &String)
        ensures
            r@ == self@.active,
    {
        &self.active
    }

    /// The known locales, in registration order.
    pub fn known_locales(&self) -> (r: &Vec<String>)
        ensures
            r@.map_values(|l: String| l@) == self@.known,
    {
        &self.known
    }

    /// True if a locale change is pending for the next tick.
    pub fn is_changed(&self) -> (r: bool)
        ensures
            r == self@.changed,
    {
        self.changed
    }

    /// Consumes the pending-change flag, returning whether it was set.
    pub(crate) fn take_changed(&mut self) -> (r: bool)
        ensures
            r == old(self)@.changed,
            final(self)@ == (LocaleRegistryView { changed: false, ..old(self)@ }),
    {
        let r = self.changed;
        self.changed = false;
        r
    }
}

} // verus!
