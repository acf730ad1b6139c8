use vstd::prelude::*;

use crate::types::DataSource;

verus! {

/// How long after an update a field keeps full trust, in milliseconds.
pub const TRACK_STALE_MS: u64 = 60000;

/// How long after an update a field remains usable at all, in milliseconds.
pub const TRACK_EXPIRE_MS: u64 = 70000;


/// Whether an observation from this tier at this time overwrites the field:
/// the new tier is at least the current one, or the field has gone stale.
pub open spec fn spec_overwrites<T>(b: DataValidityBox<T>, source: DataSource, now_ms: u128) -> bool {
    !(source.spec_rank() < b.source.spec_rank() && now_ms < b.stale)
}

/// The field after recording one observation: overwritten with a refreshed
/// envelope exactly when `spec_overwrites` holds, untouched otherwise.
pub open spec fn spec_update<T>(
    b: DataValidityBox<T>,
    source: DataSource,
    now_ms: u128,
    v: T,
) -> DataValidityBox<T> {
    if spec_overwrites(b, source, now_ms) {
        DataValidityBox {
            source,
            updated: now_ms,
            stale: (now_ms + TRACK_STALE_MS) as u128,
            expires: (now_ms + TRACK_EXPIRE_MS) as u128,
            opt_contents: Some(v),
        }
    } else {
        b
    }
}

/// The field after recording an observation that may be absent.
pub open spec fn spec_opt_update<T>(
    b: DataValidityBox<T>,
    source: DataSource,
    now_ms: u128,
    opt: Option<T>,
) -> DataValidityBox<T> {
    match opt {
        Some(v) => spec_update(b, source, now_ms, v),
        None => b,
    }
}

/// The envelope derived from two inputs: the worse of the two sources, the
/// later update, the earlier stale and expiry times; an invalid input
/// passes the other through. The stored value is untouched.
pub open spec fn spec_combine<T, U, V>(
    b: DataValidityBox<T>,
    f1: DataValidityBox<U>,
    f2: DataValidityBox<V>,
) -> DataValidityBox<T> {
    if f1.source == DataSource::Invalid {
        DataValidityBox {
            source: f2.source,
            updated: f2.updated,
            stale: f2.stale,
            expires: f2.expires,
            ..b
        }
    } else if f2.source == DataSource::Invalid {
        DataValidityBox {
            source: f1.source,
            updated: f1.updated,
            stale: f1.stale,
            expires: f1.expires,
            ..b
        }
    } else {
        DataValidityBox {
            source: if f1.source.spec_rank() <= f2.source.spec_rank() {
                f1.source
            } else {
                f2.source
            },
            updated: if f1.updated >= f2.updated {
                f1.updated
            } else {
                f2.updated
            },
            stale: if f1.stale <= f2.stale {
                f1.stale
            } else {
                f2.stale
            },
            expires: if f1.expires <= f2.expires {
                f1.expires
            } else {
                f2.expires
            },
            ..b
        }
    }
}

/// The field with its envelope (source, update, stale, and expiry times)
/// replaced by another field's envelope; the stored value is untouched.
pub open spec fn spec_envelope_from<T, U>(
    b: DataValidityBox<T>,
    src: DataValidityBox<U>,
) -> DataValidityBox<T> {
    DataValidityBox {
        source: src.source,
        updated: src.updated,
        stale: src.stale,
        expires: src.expires,
        ..b
    }
}

/// The usefulness order on two fields: positive when the first is fresher
/// or more trusted while unexpired, negative the other way, zero when tied.
pub open spec fn spec_compare<T, U>(
    b: DataValidityBox<T>,
    rhs: DataValidityBox<U>,
    now_ms: u128,
) -> int {
    if now_ms < b.stale && b.source.spec_rank() > rhs.source.spec_rank() {
        1int
    } else if now_ms < rhs.stale && b.source.spec_rank() < rhs.source.spec_rank() {
        -1int
    } else if b.updated > rhs.updated {
        1int
    } else if b.updated < rhs.updated {
        -1int
    } else {
        0int
    }
}

/// A tracked field wrapped in its data-validity envelope: the trust tier of
/// its last update, when it was updated, when it goes stale, when it
/// expires, and the value itself.
pub struct DataValidityBox<T> {
    pub source: DataSource,
    pub updated: u128,
    pub stale: u128,
    pub expires: u128,
    pub opt_contents: Option<T>,
}

impl<T> DataValidityBox<T> {
    /// The envelope is ordered: a field never goes stale before it was
    /// updated, nor expires before it goes stale.
    pub open spec fn wf(&self) -> bool {
        self.updated <= self.stale <= self.expires
    }

    /// An empty, invalid envelope.
    pub fn new() -> (r: Self)
        ensures
            r.wf(),
            r.source == DataSource::Invalid,
            r.updated == 0 && r.stale == 0 && r.expires == 0,
            r.opt_contents is None,
    {
        DataValidityBox {
            source: DataSource::Invalid,
            updated: 0,
            stale: 0,
            expires: 0,
            opt_contents: None,
        }
    }

    /// The stored value, if any, regardless of validity.
    pub fn get_opt(&self) -> (r: Option<&T>)
        ensures
            r is Some <==> self.opt_contents is Some,
            r matches Some(v) ==> *v == self.opt_contents.unwrap(),
    {
        self.opt_contents.as_ref()
    }

    /// Store a value directly, leaving the envelope untouched.
    pub fn direct_set(&mut self, v: T)
        ensures
            *final(self) == (DataValidityBox { opt_contents: Some(v), ..*old(self) }),
    {
        self.opt_contents = Some(v);
    }

    /// Whether the field has ever been validly updated.
    pub fn is_valid(&self) -> (r: bool)
        ensures
            r == (self.source != DataSource::Invalid),
    {
        self.source.rank() != 0
    }

    /// Overwrite the trust tier directly, leaving the rest untouched.
    pub fn direct_set_source(&mut self, src: DataSource)
        ensures
            *final(self) == (DataValidityBox { source: src, ..*old(self) }),
    {
        self.source = src;
    }

    /// The stored value, only when the field is valid.
    pub fn get_if_valid(&self) -> (r: Option<&T>)
        ensures
            r is Some <==> (self.source != DataSource::Invalid && self.opt_contents is Some),
            r matches Some(v) ==> *v == self.opt_contents.unwrap(),
    {
        if self.is_valid() {
            self.get_opt()
        } else {
            None
        }
    }

    /// Whether two fields were last updated from the same trust tier.
    pub fn same_source<U>(&self, other: &DataValidityBox<U>) -> (r: bool)
        ensures
            r == (self.source == other.source),
    {
        self.source.rank() == other.source.rank()
    }

    /// The absolute gap between two fields' update times.
    pub fn time_between<U>(&self, other: &DataValidityBox<U>) -> (r: u128)
        ensures
            r == (if self.updated > other.updated {
                self.updated - other.updated
            } else {
                other.updated - self.updated
            }),
    {
        if self.updated > other.updated {
            self.updated - other.updated
        } else {
            other.updated - self.updated
        }
    }

    /// Whether the field is valid, at least as trusted as `min_source`, and
    /// no older than `max_age_ms`.
    pub fn is_valid_with_constraints(
        &self,
        now_ms: u128,
        max_age_ms: u128,
        min_source: DataSource,
    ) -> (r: bool)
        ensures
            r == (self.source != DataSource::Invalid
                && self.source.spec_rank() >= min_source.spec_rank()
                && !(self.updated < now_ms && now_ms - self.updated > max_age_ms)),
    {
        self.is_valid() && self.source.rank() >= min_source.rank()
            && !(self.updated < now_ms && now_ms - self.updated > max_age_ms)
    }

    /// How old the field's last update is, or the largest age when it was
    /// never validly updated.
    pub fn data_age(&self, now_ms: u128) -> (r: u128)
        ensures
            r == (if self.source == DataSource::Invalid {
                u128::MAX as int
            } else if self.updated > now_ms {
                0int
            } else {
                now_ms - self.updated
            }),
    {
        if !self.is_valid() {
            u128::MAX
        } else if self.updated > now_ms {
            0
        } else {
            now_ms - self.updated
        }
    }

    /// Copy the whole envelope (but not the value) from another field.
    pub fn copy_validity_from<U>(&mut self, other: &DataValidityBox<U>)
        ensures
            *final(self) == (DataValidityBox {
                source: other.source,
                updated: other.updated,
                stale: other.stale,
                expires: other.expires,
                ..*old(self)
            }),
            other.wf() ==> final(self).wf(),
    {
        self.source = other.source;
        self.updated = other.updated;
        self.stale = other.stale;
        self.expires = other.expires;
    }

    /// Record a new observation. It overwrites the field exactly when the
    /// new trust tier is at least the current one or the field has gone
    /// stale; on overwrite the envelope is refreshed from `now_ms` and the
    /// new value stored. Returns whether the field was overwritten.
    pub fn update(&mut self, source: DataSource, now_ms: u128, v: T) -> (r: bool)
        requires
            now_ms + TRACK_EXPIRE_MS <= u128::MAX,
        ensures
            r == spec_overwrites(*old(self), source, now_ms),
            *final(self) == spec_update(*old(self), source, now_ms, v),
            r ==> final(self).wf(),
    {
        if source.rank() < self.source.rank() && now_ms < self.stale {
            return false;
        }

        self.source = source;
        self.updated = now_ms;
        self.stale = now_ms + TRACK_STALE_MS as u128;
        self.expires = now_ms + TRACK_EXPIRE_MS as u128;
        self.opt_contents = Some(v);
        true
    }

    /// Record a new observation only when one is present.
    pub fn opt_fn_update(&mut self, source: DataSource, now_ms: u128, opt_input: Option<T>)
        requires
            now_ms + TRACK_EXPIRE_MS <= u128::MAX,
        ensures
            *final(self) == spec_opt_update(*old(self), source, now_ms, opt_input),
    {
        if let Some(u) = opt_input {
            self.update(source, now_ms, u);
        }
    }

    /// Derive this envelope from two inputs: the worse of the two sources,
    /// the later of the two update times, and the earlier stale and expiry
    /// times. An invalid input passes the other through unchanged.
    pub fn combine_validity<U, V>(
        &mut self,
        from1: &DataValidityBox<U>,
        from2: &DataValidityBox<V>,
    )
        ensures
            *final(self) == spec_combine(*old(self), *from1, *from2),
    {
        if self.source_rank_of(from1) == 0 {
            self.source = from2.source;
            self.updated = from2.updated;
            self.stale = from2.stale;
            self.expires = from2.expires;
            return;
        }

        if self.source_rank_of(from2) == 0 {
            self.source = from1.source;
            self.updated = from1.updated;
            self.stale = from1.stale;
            self.expires = from1.expires;
            return;
        }

        // the worse of the two input sources
        self.source = if from1.source.rank() <= from2.source.rank() {
            from1.source
        } else {
            from2.source
        };
        // the later of the two update times
        self.updated = if from1.updated >= from2.updated {
            from1.updated
        } else {
            from2.updated
        };
        // the earlier of the two stale times
        self.stale = if from1.stale <= from2.stale {
            from1.stale
        } else {
            from2.stale
        };
        // the earlier of the two expiry times
        self.expires = if from1.expires <= from2.expires {
            from1.expires
        } else {
            from2.expires
        };
    }

    /// Helper: the rank of another envelope's source.
    fn source_rank_of<U>(&self, other: &DataValidityBox<U>) -> (r: u8)
        ensures
            r == other.source.spec_rank(),
    {
        other.source.rank()
    }

    /// Order two fields by usefulness: positive when this field is fresher
    /// or more trusted (while unexpired), negative the other way, zero when
    /// tied.
    pub fn compare_validity<U>(&self, rhs: &DataValidityBox<U>, now_ms: u128) -> (r: i8)
        ensures
            r == spec_compare(*self, *rhs, now_ms),
    {
        if now_ms < self.stale && self.source.rank() > rhs.source.rank() {
            1
        } else if now_ms < rhs.stale && self.source.rank() < rhs.source.rank() {
            -1
        } else if self.updated > rhs.updated {
            1
        } else if self.updated < rhs.updated {
            -1
        } else {
            0
        }
    }
}

/// A fresh or overwritten envelope is ordered, and combining two envelopes
/// whose update times are within the stale window of each other keeps the
/// order: updated never passes stale, and stale never passes expiry.
pub proof fn lemma_validity_envelope_ordered<T, U, V>(
    combined: DataValidityBox<T>,
    from1: DataValidityBox<U>,
    from2: DataValidityBox<V>,
)
    requires
        from1.wf(),
        from2.wf(),
        from1.updated <= from2.stale,
        from2.updated <= from1.stale,
        combined.updated == (if from1.updated >= from2.updated {
            from1.updated
        } else {
            from2.updated
        }),
        combined.stale == (if from1.stale <= from2.stale {
            from1.stale
        } else {
            from2.stale
        }),
        combined.expires == (if from1.expires <= from2.expires {
            from1.expires
        } else {
            from2.expires
        }),
    ensures
        combined.wf(),
{
}

} // verus!
