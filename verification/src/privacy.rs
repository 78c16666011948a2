//! Recognising clipboard content that must not be kept.
//!
//! Password managers mark secrets with the pasteboard types of
//! <https://nspasteboard.org/>. The types alone decide: where a marker is
//! present, the content is not even read.
use vstd::prelude::*;

use crate::lists;
use crate::text;
use crate::text::same_text;

verus! {

/// Marker set by password managers: do not keep this pasteboard content.
pub const CONCEALED_TYPE: &'static str = "org.nspasteboard.ConcealedType";

/// Marker for short-lived pasteboard content that should not be archived.
pub const TRANSIENT_TYPE: &'static str = "org.nspasteboard.TransientType";

/// Which privacy markers were found on a pasteboard change.
#[derive(Debug, Clone, Copy, PartialEq, Eq, Structural)]
pub struct PrivacyMarkers {
    pub concealed: bool,
    pub transient: bool,
}

impl Default for PrivacyMarkers {
    /// No marker.
    fn default() -> (r: Self)
        ensures
            r == (PrivacyMarkers { concealed: false, transient: false }),
    {
        PrivacyMarkers { concealed: false, transient: false }
    }
}

impl PrivacyMarkers {
    /// Whether either marker is present.
    pub open spec fn sensitive(self) -> bool {
        self.concealed || self.transient
    }

    /// The markers by name.
    pub open spec fn description(self) -> Seq<char> {
        match (self.concealed, self.transient) {
            (true, true) => "ConcealedType + TransientType"@,
            (true, false) => "ConcealedType"@,
            (false, true) => "TransientType"@,
            (false, false) => "none"@,
        }
    }

    /// True if either marker is present (the content must be skipped entirely).
    pub fn is_sensitive(self) -> (r: bool)
        ensures
            r == self.sensitive(),
    {
        self.concealed || self.transient
    }

    /// The markers by name, for logs and the status line.
    pub fn describe(self) -> (r: String)
        ensures
            r@ == self.description(),
    {
        if self.concealed && self.transient {
            "ConcealedType + TransientType".to_owned()
        } else if self.concealed {
            "ConcealedType".to_owned()
        } else if self.transient {
            "TransientType".to_owned()
        } else {
            "none".to_owned()
        }
    }
}

/// The markers among the given type names. Names are matched exactly, case
/// included.
pub open spec fn markers_in(types: Seq<Seq<char>>) -> PrivacyMarkers {
    PrivacyMarkers {
        concealed: types.contains(CONCEALED_TYPE@),
        transient: types.contains(TRANSIENT_TYPE@),
    }
}

/// The two marker names differ.
proof fn lemma_markers_differ()
    ensures
        CONCEALED_TYPE@ != TRANSIENT_TYPE@,
{
    reveal_strlit("org.nspasteboard.ConcealedType");
    reveal_strlit("org.nspasteboard.TransientType");
    assert(CONCEALED_TYPE@[17] != TRANSIENT_TYPE@[17]);
}

/// Inspects a list of pasteboard type names for privacy markers.
pub fn inspect_types(types: &[String]) -> (r: PrivacyMarkers)
    ensures
        r == markers_in(types.deep_view()),
{
    let mut markers = PrivacyMarkers::default();
    let mut i: usize = 0;
    let ghost all = types.deep_view();
    while i < types.len()
        invariant
            i <= types@.len(),
            all == types.deep_view(),
            markers == markers_in(all.take(i as int)),
        decreases types@.len() - i,
    {
        let ghost seen = all.take(i as int);
        let ghost t = types@[i as int]@;
        assert(all.take(i + 1) =~= seen.push(t));
        proof {
            lemma_markers_differ();
            assert forall|m: Seq<char>| seen.push(t).contains(m) == (seen.contains(m) || m == t) by {
                lists::lemma_push_member(seen, t, m);
            }
        }
        if same_text(types[i].as_str(), CONCEALED_TYPE) {
            markers.concealed = true;
        } else if same_text(types[i].as_str(), TRANSIENT_TYPE) {
            markers.transient = true;
        }
        i += 1;
    }
    assert(all.take(i as int) =~= all);
    markers
}

/// Returns `true` if the type list indicates sensitive content.
pub fn is_sensitive(types: &[String]) -> (r: bool)
    ensures
        r == markers_in(types.deep_view()).sensitive(),
{
    inspect_types(types).is_sensitive()
}

/// Whether the type name is one of the markers.
pub fn nsstring_is_marker(name: &str) -> (r: bool)
    ensures
        r == (name@ == CONCEALED_TYPE@ || name@ == TRANSIENT_TYPE@),
{
    same_text(name, CONCEALED_TYPE) || same_text(name, TRANSIENT_TYPE)
}

/// What a pasteboard tells of its types without any content being read.
pub struct TypeProbe {
    /// The type names that the pasteboard lists.
    pub types: Vec<String>,
    /// The first of the two markers that it finds available.
    pub first_available: Option<String>,
    /// Whether the concealed marker, asked for alone, is available.
    pub concealed_available: bool,
    /// Whether the transient marker, asked for alone, is available.
    pub transient_available: bool,
}

impl TypeProbe {
    /// The markers that any of the answers shows.
    pub open spec fn markers(self) -> PrivacyMarkers {
        let listed = markers_in(self.types.deep_view());
        let found = self.first_available.deep_view();
        PrivacyMarkers {
            concealed: listed.concealed || found == Some(CONCEALED_TYPE@)
                || self.concealed_available,
            transient: listed.transient || found == Some(TRANSIENT_TYPE@)
                || self.transient_available,
        }
    }
}

/// Inspects a pasteboard for privacy markers. A marker counts where it is
/// listed and also where it is only available on request, as one declared
/// with empty data may be.
pub fn inspect_pasteboard(probe: &TypeProbe) -> (r: PrivacyMarkers)
    ensures
        r == probe.markers(),
{
    proof {
        lemma_markers_differ();
    }
    let mut markers = inspect_types(probe.types.as_slice());
    match &probe.first_available {
        Some(name) => {
            if same_text(name.as_str(), CONCEALED_TYPE) {
                markers.concealed = true;
            } else if same_text(name.as_str(), TRANSIENT_TYPE) {
                markers.transient = true;
            }
        },
        None => {},
    }
    if probe.concealed_available {
        markers.concealed = true;
    }
    if probe.transient_available {
        markers.transient = true;
    }
    markers
}

/// The log line for a clipboard change that was skipped. It names the markers
/// and nothing of the content.
pub fn log_skipped(markers: PrivacyMarkers) -> (r: String)
    ensures
        r@ == "privacy: skipped clipboard change ("@ + markers.description()
            + ") — content not stored"@,
{
    let mut r: String = "privacy: skipped clipboard change (".to_owned();
    r.append(markers.describe().as_str());
    r.append(") — content not stored");
    r
}

/// The status line for a clipboard change that was skipped.
pub fn status_message(markers: PrivacyMarkers) -> (r: String)
    ensures
        r@ == "Last copy skipped (privacy: "@ + markers.description() + ")"@,
{
    let mut r: String = "Last copy skipped (privacy: ".to_owned();
    r.append(markers.describe().as_str());
    r.append(")");
    r
}

/// A marker that a pasteboard lists is never overlooked.
pub proof fn law_listed_marker_found(probe: TypeProbe)
    ensures
        probe.types.deep_view().contains(CONCEALED_TYPE@) ==> probe.markers().concealed,
        probe.types.deep_view().contains(TRANSIENT_TYPE@) ==> probe.markers().transient,
{
}

/// Types without a marker, and none available, are not sensitive.
pub proof fn law_unmarked_not_sensitive(types: Seq<Seq<char>>)
    requires
        forall|i: int|
            0 <= i < types.len() ==> #[trigger] types[i] != CONCEALED_TYPE@ && types[i]
                != TRANSIENT_TYPE@,
    ensures
        !markers_in(types).sensitive(),
{
}

/// A list of types has a marker exactly where one of the types is its name:
/// a type more adds the marker that it names and no other.
pub proof fn law_one_type_more(types: Seq<Seq<char>>, t: Seq<char>)
    ensures
        markers_in(types.push(t)).concealed == (markers_in(types).concealed || t
            == "org.nspasteboard.ConcealedType"@),
        markers_in(types.push(t)).transient == (markers_in(types).transient || t
            == "org.nspasteboard.TransientType"@),
        !markers_in(Seq::empty()).concealed,
        !markers_in(Seq::empty()).transient,
{
    lists::lemma_push_member(types, t, CONCEALED_TYPE@);
    lists::lemma_push_member(types, t, TRANSIENT_TYPE@);
}

/// A pasteboard has a marker where it lists it, or offers it as the first
/// available, or has it available on request, and not otherwise. Either marker
/// makes the content sensitive.
pub proof fn law_markers_of_probe(probe: TypeProbe)
    ensures
        probe.markers().concealed <==> probe.types.deep_view().contains(
            "org.nspasteboard.ConcealedType"@,
        ) || probe.first_available.deep_view() == Some("org.nspasteboard.ConcealedType"@)
            || probe.concealed_available,
        probe.markers().transient <==> probe.types.deep_view().contains(
            "org.nspasteboard.TransientType"@,
        ) || probe.first_available.deep_view() == Some("org.nspasteboard.TransientType"@)
            || probe.transient_available,
        probe.markers().sensitive() <==> probe.markers().concealed || probe.markers().transient,
{
}

/// A description names exactly the markers that are there.
pub proof fn law_described(m: PrivacyMarkers)
    ensures
        text::occurs_in("ConcealedType"@, m.description()) <==> m.concealed,
        text::occurs_in("TransientType"@, m.description()) <==> m.transient,
        !m.sensitive() ==> m.description() == "none"@,
{
    reveal_strlit("ConcealedType + TransientType");
    reveal_strlit("ConcealedType");
    reveal_strlit("TransientType");
    reveal_strlit("none");
    let c = "ConcealedType"@;
    let t = "TransientType"@;
    let both = "ConcealedType + TransientType"@;
    assert(both.subrange(0, 13) =~= c);
    assert(both.subrange(16, 29) =~= t);
    assert(c.subrange(0, 13) =~= c);
    assert(t.subrange(0, 13) =~= t);
    assert(text::stands_at(both, c, 0) && text::stands_at(both, t, 16));
    assert(text::stands_at(c, c, 0) && text::stands_at(t, t, 0));
    assert(c[0] == 'C' && t[0] == 'T');
    assert(t.subrange(0, 13)[0] != c[0] && c.subrange(0, 13)[0] != t[0]);
    assert(forall|i: int| text::stands_at(c, t, i) ==> i == 0);
    assert(forall|i: int| text::stands_at(t, c, i) ==> i == 0);
}

} // verus!
