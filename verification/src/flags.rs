use vstd::prelude::*;

verus! {

/// Build flags for address space maps.
///
/// Six independent boolean capabilities — read, write, execute, copy-on-write,
/// private, shared — combined with [`FlagBuilder::and`] (boolean or per flag)
/// and [`FlagBuilder::but_not`] (clear the flags set in the other operand).
///
/// A flag set attached to a mapping must satisfy [`FlagBuilder::is_valid`]:
/// `private` and `shared` are mutually exclusive, and so are `cow` and
/// `write` (a copy-on-write page must not be directly writable until the
/// copy has been materialized).
#[derive(Clone, Copy, Debug, PartialEq, Eq, Structural)]
pub struct FlagBuilder {
    pub read: bool,
    pub write: bool,
    pub execute: bool,
    pub cow: bool,
    pub private: bool,
    pub shared: bool,
}

impl FlagBuilder {
    /// The flag set with every flag off.
    pub open spec fn spec_default() -> FlagBuilder {
        FlagBuilder { read: false, write: false, execute: false, cow: false, private: false, shared: false }
    }

    /// The validity predicate: `private`/`shared` and `cow`/`write` are
    /// mutually exclusive.
    pub open spec fn valid(self) -> bool {
        !(self.private && self.shared) && !(self.cow && self.write)
    }

    /// Whether a requested access-type set is satisfiable by this (granted)
    /// set: every requested flag that matters for access control (read,
    /// write, execute) must also be granted; the remaining flags of the
    /// request are only descriptive and are not access-checked.
    pub open spec fn grants(self, requested: FlagBuilder) -> bool {
        &&& (requested.read ==> self.read)
        &&& (requested.write ==> self.write)
        &&& (requested.execute ==> self.execute)
    }

    /// Create a new `FlagBuilder` with all flags toggled off.
    pub fn new() -> (r: Self)
        ensures
            r == Self::spec_default(),
    {
        FlagBuilder { read: false, write: false, execute: false, cow: false, private: false, shared: false }
    }

    /// Turn on only the read flag.
    pub fn read() -> (r: Self)
        ensures
            r == (FlagBuilder { read: true, ..Self::spec_default() }),
    {
        FlagBuilder { read: true, ..Self::new() }
    }

    /// Turn on only the write flag.
    pub fn write() -> (r: Self)
        ensures
            r == (FlagBuilder { write: true, ..Self::spec_default() }),
    {
        FlagBuilder { write: true, ..Self::new() }
    }

    /// Turn on only the execute flag.
    pub fn execute() -> (r: Self)
        ensures
            r == (FlagBuilder { execute: true, ..Self::spec_default() }),
    {
        FlagBuilder { execute: true, ..Self::new() }
    }

    /// Turn on only the cow flag.
    pub fn cow() -> (r: Self)
        ensures
            r == (FlagBuilder { cow: true, ..Self::spec_default() }),
    {
        FlagBuilder { cow: true, ..Self::new() }
    }

    /// Turn on only the private flag.
    pub fn private() -> (r: Self)
        ensures
            r == (FlagBuilder { private: true, ..Self::spec_default() }),
    {
        FlagBuilder { private: true, ..Self::new() }
    }

    /// Turn on only the shared flag.
    pub fn shared() -> (r: Self)
        ensures
            r == (FlagBuilder { shared: true, ..Self::spec_default() }),
    {
        FlagBuilder { shared: true, ..Self::new() }
    }

    /// Toggle the read flag.
    pub fn toggle_read(self) -> (r: Self)
        ensures
            r == (FlagBuilder { read: !self.read, ..self }),
    {
        FlagBuilder { read: !self.read, ..self }
    }

    /// Toggle the write flag.
    pub fn toggle_write(self) -> (r: Self)
        ensures
            r == (FlagBuilder { write: !self.write, ..self }),
    {
        FlagBuilder { write: !self.write, ..self }
    }

    /// Toggle the execute flag.
    pub fn toggle_execute(self) -> (r: Self)
        ensures
            r == (FlagBuilder { execute: !self.execute, ..self }),
    {
        FlagBuilder { execute: !self.execute, ..self }
    }

    /// Toggle the cow flag.
    pub fn toggle_cow(self) -> (r: Self)
        ensures
            r == (FlagBuilder { cow: !self.cow, ..self }),
    {
        FlagBuilder { cow: !self.cow, ..self }
    }

    /// Toggle the private flag.
    pub fn toggle_private(self) -> (r: Self)
        ensures
            r == (FlagBuilder { private: !self.private, ..self }),
    {
        FlagBuilder { private: !self.private, ..self }
    }

    /// Toggle the shared flag.
    pub fn toggle_shared(self) -> (r: Self)
        ensures
            r == (FlagBuilder { shared: !self.shared, ..self }),
    {
        FlagBuilder { shared: !self.shared, ..self }
    }

    /// Combine two `FlagBuilder`s by boolean or-ing each of their flags.
    /// This is, somewhat counter-intuitively, named `and`, so that
    /// `read.and(execute)` reads correctly.
    pub fn and(self, other: Self) -> (r: Self)
        ensures
            r.read == (self.read || other.read),
            r.write == (self.write || other.write),
            r.execute == (self.execute || other.execute),
            r.cow == (self.cow || other.cow),
            r.private == (self.private || other.private),
            r.shared == (self.shared || other.shared),
    {
        let read = self.read || other.read;
        let write = self.write || other.write;
        let execute = self.execute || other.execute;
        let cow = self.cow || other.cow;
        let private = self.private || other.private;
        let shared = self.shared || other.shared;
        FlagBuilder { read, write, execute, cow, private, shared }
    }

    /// Whether this flag set is flag-wise below `other`: every flag that is
    /// on in `self` is also on in `other`.
    pub fn le(self, other: Self) -> (r: bool)
        ensures
            r == ({
                &&& (self.read ==> other.read)
                &&& (self.write ==> other.write)
                &&& (self.execute ==> other.execute)
                &&& (self.cow ==> other.cow)
                &&& (self.private ==> other.private)
                &&& (self.shared ==> other.shared)
            }),
    {
        (!self.read || other.read) &&
        (!self.write || other.write) &&
        (!self.execute || other.execute) &&
        (!self.cow || other.cow) &&
        (!self.private || other.private) &&
        (!self.shared || other.shared)
    }

    /// Turn off all flags in self that are on in other.
    ///
    /// You can think of this as `self &! other` on each field.
    pub fn but_not(self, other: Self) -> (r: Self)
        ensures
            r.read == (self.read && !other.read),
            r.write == (self.write && !other.write),
            r.execute == (self.execute && !other.execute),
            r.cow == (self.cow && !other.cow),
            r.private == (self.private && !other.private),
            r.shared == (self.shared && !other.shared),
    {
        let read = self.read && !other.read;
        let write = self.write && !other.write;
        let execute = self.execute && !other.execute;
        let cow = self.cow && !other.cow;
        let private = self.private && !other.private;
        let shared = self.shared && !other.shared;
        FlagBuilder { read, write, execute, cow, private, shared }
    }

    /// Check whether an access request `access_perms` is satisfiable by this
    /// granted set: true exactly when every requested read/write/execute
    /// flag is also granted (see [`FlagBuilder::grants`]).
    pub fn check_access_perms(&self, access_perms: FlagBuilder) -> (r: bool)
        ensures
            r == self.grants(access_perms),
    {
        !(access_perms.read && !self.read
            || access_perms.write && !self.write
            || access_perms.execute && !self.execute)
    }

    /// Validate the mutual-exclusion invariants: `private` and `shared` are
    /// mutually exclusive, and so are `cow` and `write` (for COW to work,
    /// write needs to be off until after the copy).
    pub fn is_valid(&self) -> (r: bool)
        ensures
            r == self.valid(),
    {
        !(self.private && self.shared) && !(self.cow && self.write)
    }
}

impl Default for FlagBuilder {
    /// The all-off flag set, the same value as [`FlagBuilder::new`].
    fn default() -> (r: Self)
        ensures
            r == Self::spec_default(),
    {
        FlagBuilder::new()
    }
}

} // verus!
