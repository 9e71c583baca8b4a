//! Tags: their normal form, which are valid, and selecting tunnels by tag.

use vstd::prelude::*;

use crate::config::{ResolvedModel, ResolvedTunnelConfig, TunnelConfig, TunnelModel};
use crate::text::{chars_of, is_blank, lower, lower_str, str_eq, trim, trim_str};

verus! {

/// The normal form of a tag: trimmed and ASCII lower-cased.
pub open spec fn spec_normalize_tag(tag: Seq<char>) -> Seq<char> {
    lower(trim(tag))
}

/// Whether a character may appear in a tag.
pub open spec fn is_tag_char(c: char) -> bool {
    ('a' <= c && c <= 'z') || ('0' <= c && c <= '9') || c == '-' || c == '_' || c == '.' || c == '/'
}

/// Whether a tag is a non-empty ASCII slug of lower-case letters, digits, `-`, `_`, `.`, `/`.
pub open spec fn spec_tag_is_valid(tag: Seq<char>) -> bool {
    tag.len() > 0 && forall|i: int| 0 <= i < tag.len() ==> is_tag_char(#[trigger] tag[i])
}

/// Whether a tunnel's tag, as written, matches a tag in normal form:
/// equal after trimming, ignoring ASCII case.
pub open spec fn tag_matches(tag: Seq<char>, normalized: Seq<char>) -> bool {
    lower(trim(tag)) == lower(normalized)
}

/// Whether the tunnel has a tag matching `normalized`.
pub open spec fn has_tag(t: TunnelModel, normalized: Seq<char>) -> bool {
    exists|i: int| 0 <= i < t.tags.len() && tag_matches(#[trigger] t.tags[i], normalized)
}

/// Whether the tunnel has every one of `required`.
pub open spec fn has_all_tags(t: TunnelModel, required: Seq<Seq<char>>) -> bool {
    forall|j: int| 0 <= j < required.len() ==> has_tag(t, #[trigger] required[j])
}

/// Whether the tunnel has at least one of `targets`.
pub open spec fn has_any_tag(t: TunnelModel, targets: Seq<Seq<char>>) -> bool {
    exists|j: int| 0 <= j < targets.len() && has_tag(t, #[trigger] targets[j])
}

/// Normal forms of a list of tags.
pub open spec fn spec_normalize_tags(tags: Seq<Seq<char>>) -> Seq<Seq<char>> {
    tags.map_values(|t: Seq<char>| spec_normalize_tag(t))
}

/// The normal form of a tag: trimmed and ASCII lower-cased.
pub fn normalize_tag(tag: &str) -> (r: String)
    ensures
        r@ == spec_normalize_tag(tag@),
{
    let t = trim_str(tag);
    lower_str(t.as_str())
}

/// The normal forms of a list of tags, in order.
pub fn normalize_tags(tags: &[String]) -> (r: Vec<String>)
    ensures
        r.deep_view() == spec_normalize_tags(tags@.map_values(|t: String| t@)),
{
    let ghost src = tags@.map_values(|t: String| t@);
    let mut out: Vec<String> = Vec::new();
    let mut i: usize = 0;
    while i < tags.len()
        invariant
            i <= tags@.len(),
            src == tags@.map_values(|t: String| t@),
            out@.len() == i,
            forall|j: int| 0 <= j < i ==> (#[trigger] out@[j])@ == spec_normalize_tag(src[j]),
        decreases tags@.len() - i,
    {
        out.push(normalize_tag(tags[i].as_str()));
        i += 1;
    }
    assert(out.deep_view() =~= spec_normalize_tags(src));
    out
}

/// Whether a tag is a non-empty ASCII slug of lower-case letters, digits, `-`, `_`, `.`, `/`.
pub fn tag_is_valid(tag: &str) -> (r: bool)
    ensures
        r == spec_tag_is_valid(tag@),
{
    let cs = chars_of(tag);
    if cs.len() == 0 {
        return false;
    }
    let mut i: usize = 0;
    while i < cs.len()
        invariant
            cs@ == tag@,
            i <= cs@.len(),
            forall|j: int| 0 <= j < i ==> is_tag_char(#[trigger] cs@[j]),
        decreases cs@.len() - i,
    {
        let c = cs[i];
        if !(('a' <= c && c <= 'z') || ('0' <= c && c <= '9') || c == '-' || c == '_' || c == '.'
            || c == '/') {
            assert(!is_tag_char(tag@[i as int]));
            return false;
        }
        i += 1;
    }
    true
}

/// Whether a tunnel's tag, as written, matches a tag in normal form.
pub fn tag_matches_normalized(tag: &str, normalized: &str) -> (r: bool)
    ensures
        r == tag_matches(tag@, normalized@),
{
    let a = normalize_tag(tag);
    let b = lower_str(normalized);
    str_eq(a.as_str(), b.as_str())
}

/// Whether the tunnel has a tag matching `normalized`.
pub fn tunnel_has_tag(tunnel: &TunnelConfig, normalized: &str) -> (r: bool)
    ensures
        r == has_tag(tunnel@, normalized@),
{
    let mut i: usize = 0;
    while i < tunnel.tags.len()
        invariant
            i <= tunnel.tags@.len(),
            forall|j: int| 0 <= j < i ==> !tag_matches(#[trigger] tunnel@.tags[j], normalized@),
        decreases tunnel.tags@.len() - i,
    {
        if tag_matches_normalized(tunnel.tags[i].as_str(), normalized) {
            assert(tag_matches(tunnel@.tags[i as int], normalized@));
            return true;
        }
        i += 1;
    }
    false
}

/// Whether the tunnel has every one of the tags in normal form.
pub fn tunnel_matches_normalized_tags(tunnel: &TunnelConfig, required: &[String]) -> (r: bool)
    ensures
        r == has_all_tags(tunnel@, required@.map_values(|t: String| t@)),
{
    let ghost req = required@.map_values(|t: String| t@);
    let mut j: usize = 0;
    while j < required.len()
        invariant
            j <= required@.len(),
            req == required@.map_values(|t: String| t@),
            forall|k: int| 0 <= k < j ==> has_tag(tunnel@, #[trigger] req[k]),
        decreases required@.len() - j,
    {
        if !tunnel_has_tag(tunnel, required[j].as_str()) {
            assert(!has_tag(tunnel@, req[j as int]));
            return false;
        }
        j += 1;
    }
    true
}

/// Whether the tunnel has at least one of the tags in normal form.
pub fn tunnel_matches_any_normalized_tag(tunnel: &TunnelConfig, targets: &[String]) -> (r: bool)
    ensures
        r == has_any_tag(tunnel@, targets@.map_values(|t: String| t@)),
{
    let ghost tg = targets@.map_values(|t: String| t@);
    let mut j: usize = 0;
    while j < targets.len()
        invariant
            j <= targets@.len(),
            tg == targets@.map_values(|t: String| t@),
            forall|k: int| 0 <= k < j ==> !has_tag(tunnel@, #[trigger] tg[k]),
        decreases targets@.len() - j,
    {
        if tunnel_has_tag(tunnel, targets[j].as_str()) {
            assert(has_tag(tunnel@, tg[j as int]));
            return true;
        }
        j += 1;
    }
    false
}

/// Whether the tunnel has every one of `required_tags`, compared in normal form.
pub fn tunnel_matches_tags(tunnel: &TunnelConfig, required_tags: &[String]) -> (r: bool)
    ensures
        r == has_all_tags(tunnel@, spec_normalize_tags(required_tags@.map_values(|t: String| t@))),
{
    let req = normalize_tags(required_tags);
    assert(req@.map_values(|t: String| t@) =~= req.deep_view());
    tunnel_matches_normalized_tags(&tunnel, req.as_slice())
}

/// The merged tunnels that have every one of `required_tags`, in order.
pub fn filter_tunnels_by_tags<'a>(tunnels: &'a [ResolvedTunnelConfig], required_tags: &[String]) -> (r: Vec<&'a ResolvedTunnelConfig>)
    ensures
        r.deep_view() == tunnels@.map_values(|t: ResolvedTunnelConfig| t@).filter(
            |t: ResolvedModel|
                has_all_tags(t.tunnel, spec_normalize_tags(required_tags@.map_values(|s: String| s@))),
        ),
{
    let req = normalize_tags(required_tags);
    let ghost nreq = spec_normalize_tags(required_tags@.map_values(|s: String| s@));
    assert(req@.map_values(|t: String| t@) =~= nreq);
    let ghost pred = |t: ResolvedModel| has_all_tags(t.tunnel, nreq);
    let ghost all = tunnels@.map_values(|t: ResolvedTunnelConfig| t@);
    let mut out: Vec<&'a ResolvedTunnelConfig> = Vec::new();
    let mut i: usize = 0;
    while i < tunnels.len()
        invariant
            i <= tunnels@.len(),
            all == tunnels@.map_values(|t: ResolvedTunnelConfig| t@),
            req@.map_values(|t: String| t@) == nreq,
            pred == (|t: ResolvedModel| has_all_tags(t.tunnel, nreq)),
            out.deep_view() == all.subrange(0, i as int).filter(pred),
        decreases tunnels@.len() - i,
    {
        reveal_with_fuel(Seq::<_>::filter, 1);
        let ghost prev = out.deep_view();
        if tunnel_matches_normalized_tags(&tunnels[i].tunnel, req.as_slice()) {
            out.push(&tunnels[i]);
            assert(out.deep_view() =~= prev.push(all[i as int]));
        }
        i += 1;
        assert(all.subrange(0, i as int).drop_last() =~= all.subrange(0, i - 1));
    }
    assert(all.subrange(0, i as int) =~= all);
    out
}

/// The merged tunnels that have none of `excluded_tags`, in order.
pub fn filter_tunnels_excluding_tags<'a>(tunnels: &'a [ResolvedTunnelConfig], excluded_tags: &[String]) -> (r: Vec<&'a ResolvedTunnelConfig>)
    ensures
        r.deep_view() == tunnels@.map_values(|t: ResolvedTunnelConfig| t@).filter(
            |t: ResolvedModel|
                !has_any_tag(t.tunnel, spec_normalize_tags(excluded_tags@.map_values(|s: String| s@))),
        ),
{
    let ex = normalize_tags(excluded_tags);
    let ghost nex = spec_normalize_tags(excluded_tags@.map_values(|s: String| s@));
    assert(ex@.map_values(|t: String| t@) =~= nex);
    let ghost pred = |t: ResolvedModel| !has_any_tag(t.tunnel, nex);
    let ghost all = tunnels@.map_values(|t: ResolvedTunnelConfig| t@);
    let mut out: Vec<&'a ResolvedTunnelConfig> = Vec::new();
    let mut i: usize = 0;
    while i < tunnels.len()
        invariant
            i <= tunnels@.len(),
            all == tunnels@.map_values(|t: ResolvedTunnelConfig| t@),
            ex@.map_values(|t: String| t@) == nex,
            pred == (|t: ResolvedModel| !has_any_tag(t.tunnel, nex)),
            out.deep_view() == all.subrange(0, i as int).filter(pred),
        decreases tunnels@.len() - i,
    {
        reveal_with_fuel(Seq::<_>::filter, 1);
        let ghost prev = out.deep_view();
        if !tunnel_matches_any_normalized_tag(&tunnels[i].tunnel, ex.as_slice()) {
            out.push(&tunnels[i]);
            assert(out.deep_view() =~= prev.push(all[i as int]));
        }
        i += 1;
        assert(all.subrange(0, i as int).drop_last() =~= all.subrange(0, i - 1));
    }
    assert(all.subrange(0, i as int) =~= all);
    out
}

/// Requiring no tags selects every tunnel.
pub proof fn lemma_no_required_tags_selects_all(t: TunnelModel)
    ensures
        has_all_tags(t, seq![]),
{
}

/// Excluding no tags keeps every tunnel.
pub proof fn lemma_no_excluded_tags_keeps_all(t: TunnelModel)
    ensures
        !has_any_tag(t, seq![]),
{
}

/// Each further required tag narrows the selection: a tunnel with all of
/// `required` and `extra` has all of `required`.
pub proof fn lemma_more_required_tags_narrow(t: TunnelModel, required: Seq<Seq<char>>, extra: Seq<Seq<char>>)
    ensures
        has_all_tags(t, required + extra) ==> has_all_tags(t, required),
{
    if has_all_tags(t, required + extra) {
        assert forall|j: int| 0 <= j < required.len() implies has_tag(t, #[trigger] required[j]) by {
            assert((required + extra)[j] == required[j]);
        }
    }
}

/// The order of required tags does not matter: requiring `a` then `b`
/// selects what requiring `b` then `a` does.
pub proof fn lemma_required_tags_commute(t: TunnelModel, a: Seq<Seq<char>>, b: Seq<Seq<char>>)
    ensures
        has_all_tags(t, a + b) == has_all_tags(t, b + a),
{
    if has_all_tags(t, a + b) {
        assert forall|j: int| 0 <= j < (b + a).len() implies has_tag(t, #[trigger] (b + a)[j]) by {
            if j < b.len() {
                assert((a + b)[a.len() + j] == (b + a)[j]);
            } else {
                assert((a + b)[j - b.len()] == (b + a)[j]);
            }
        }
    }
    if has_all_tags(t, b + a) {
        assert forall|j: int| 0 <= j < (a + b).len() implies has_tag(t, #[trigger] (a + b)[j]) by {
            if j < a.len() {
                assert((b + a)[b.len() + j] == (a + b)[j]);
            } else {
                assert((b + a)[j - a.len()] == (a + b)[j]);
            }
        }
    }
}

} // verus!
