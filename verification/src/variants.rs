//! The variant resolver: from the lines of a master manifest to the media
//! manifest of each quality.

use crate::text::{
    chars_of, contains, contains_text, find, find_char, find_in, first_index_of, lines_of,
    lines_view, split_lines, string_of, string_of_range,
};
use crate::token::AccessToken;
use crate::utils::{ErrorKind, ErrorView, TwitchClientError};
use vstd::prelude::*;
use vstd::string::StringExecFns;

verus! {

/// What the first line of a manifest holds where the platform refuses it.
pub const RESTRICTED_MARKER: &'static str = "vod_manifest_restricted";

/// What a line that declares a variant holds.
pub const VARIANT_TAG: &'static str = "#EXT-X-MEDIA";

/// What stands before the label in a line that declares a variant.
pub const NAME_ATTRIBUTE: &'static str = "NAME=\"";

/// What the address of a video's master manifest begins with; the video's
/// identifier follows.
pub const PLAYLIST_SERVER: &'static str = "http://usher.ttvnw.net/vod/";

/// What stands before the token's value in the address of a master manifest.
pub const TOKEN_PARAMETER: &'static str = "?nauth=";

/// What stands before the token's signature in the address of a master
/// manifest.
pub const SIGNATURE_PARAMETER: &'static str = "&nauthsig=";

/// What the address of a master manifest ends with.
pub const PLAYLIST_OPTIONS: &'static str = "&allow_source=true&player=twitchweb";

/// The message of the error for a manifest that the platform refuses.
pub const ACCESS_RESTRICTED: &'static str = "Insufficient access to VOD, OAuth may be required.";

/// The message of the error for a variant without a label.
pub const MISSING_VARIANT_NAME: &'static str = "Couldn't find the name of a video quality";

/// What the message of the error for a quality that a video does not have
/// begins with; the label asked for follows.
pub const MISSING_QUALITY: &'static str = "Couldn't find the video quality : ";

/// The message of the error for a variant without a manifest.
pub const MISSING_VARIANT_URL: &'static str = "Couldn't find the playlist of a video quality";

/// One quality in which a video can be had.
#[derive(Debug, Clone, PartialEq, Eq)]
pub struct Variant {
    /// The label of the quality.
    pub label: String,
    /// Where the media manifest of that quality is.
    pub url: String,
}

/// A variant as contracts speak of it.
pub struct VariantView {
    pub label: Seq<char>,
    pub url: Seq<char>,
}

impl View for Variant {
    type V = VariantView;

    open spec fn view(&self) -> VariantView {
        VariantView { label: self.label@, url: self.url@ }
    }
}

/// The views of the variants in `entries`.
pub open spec fn variants_view(entries: Seq<Variant>) -> Seq<VariantView> {
    Seq::new(entries.len(), |i: int| entries[i]@)
}

/// The index of the entry of `set` with the label `label`, if there is one.
pub open spec fn place_of(set: Seq<VariantView>, label: Seq<char>) -> Option<int>
    decreases set.len(),
{
    if set.len() == 0 {
        None
    } else {
        match place_of(set.drop_last(), label) {
            Some(k) => Some(k),
            None => if set.last().label == label {
                Some(set.len() - 1)
            } else {
                None
            },
        }
    }
}

/// What `place_of` finds is the first entry with that label.
pub proof fn lemma_place_of(set: Seq<VariantView>, label: Seq<char>)
    ensures
        match place_of(set, label) {
            Some(k) => 0 <= k < set.len() && set[k].label == label && forall|j: int|
                0 <= j < k ==> (#[trigger] set[j]).label != label,
            None => forall|j: int| 0 <= j < set.len() ==> (#[trigger] set[j]).label != label,
        },
    decreases set.len(),
{
    if set.len() > 0 {
        let head = set.drop_last();
        lemma_place_of(head, label);
        assert(forall|j: int| 0 <= j < head.len() ==> head[j] == set[j]);
    }
}

/// Whether no label occurs twice in `set`.
pub open spec fn labels_distinct(set: Seq<VariantView>) -> bool {
    forall|j: int, k: int|
        0 <= j < k < set.len() ==> (#[trigger] set[j]).label != (#[trigger] set[k]).label
}

/// The qualities of a video, each with its media manifest. No label occurs
/// twice.
#[derive(Debug, Clone, PartialEq, Eq)]
pub struct VariantSet {
    entries: Vec<Variant>,
}

impl View for VariantSet {
    type V = Seq<VariantView>;

    closed spec fn view(&self) -> Seq<VariantView> {
        variants_view(self.entries@)
    }
}

impl VariantSet {
    /// Whether the set is in order: no label occurs twice.
    pub open spec fn wf(&self) -> bool {
        labels_distinct(self@)
    }

    /// The set as a map from label to manifest.
    pub open spec fn as_map(&self) -> Map<Seq<char>, Seq<char>> {
        Map::new(
            |label: Seq<char>| place_of(self@, label) is Some,
            |label: Seq<char>| self@[place_of(self@, label)->0].url,
        )
    }

    /// The set without entries.
    pub fn new() -> (set: VariantSet)
        ensures
            set@ == Seq::<VariantView>::empty(),
            set.wf(),
    {
        let set = VariantSet { entries: Vec::new() };
        assert(set@ == Seq::<VariantView>::empty());
        set
    }

    /// The number of qualities.
    pub fn len(&self) -> (n: usize)
        ensures
            n == self@.len(),
    {
        self.entries.len()
    }

    /// The index of the entry with the label `label`.
    fn find_label(&self, label: &str) -> (r: Option<usize>)
        ensures
            match r {
                Some(k) => place_of(self@, label@) == Some(k as int) && k < self.entries.len(),
                None => place_of(self@, label@) == None::<int>,
            },
    {
        let ghost all = self@;
        let wanted: String = label.to_owned();
        let mut i: usize = 0;
        while i < self.entries.len()
            invariant
                i <= self.entries.len(),
                all == variants_view(self.entries@),
                wanted@ == label@,
                forall|j: int| 0 <= j < i ==> (#[trigger] all[j]).label != label@,
            decreases self.entries.len() - i,
        {
            assert(all[i as int] == self.entries@[i as int]@);
            proof {
                lemma_place_of(all, label@);
            }
            if self.entries[i].label == wanted {
                return Some(i);
            }
            i += 1;
        }
        proof {
            lemma_place_of(all, label@);
        }
        None
    }

    /// Whether the set has the quality `label`.
    pub fn contains_key(&self, label: &str) -> (r: bool)
        ensures
            r == self.as_map().contains_key(label@),
    {
        self.find_label(label).is_some()
    }

    /// The media manifest of the quality `label`.
    pub fn get(&self, label: &str) -> (r: Option<String>)
        ensures
            match r {
                Some(url) => self.as_map().contains_key(label@) && self.as_map()[label@] == url@,
                None => !self.as_map().contains_key(label@),
            },
    {
        match self.find_label(label) {
            Some(k) => {
                assert(self@[k as int] == self.entries@[k as int]@);
                Some(self.entries[k].url.clone())
            },
            None => None,
        }
    }

    /// The labels of the qualities, in the order in which the manifest
    /// declares them.
    pub fn labels(&self) -> (r: Vec<String>)
        ensures
            r@.len() == self@.len(),
            forall|k: int| 0 <= k < r@.len() ==> (#[trigger] r@[k])@ == self@[k].label,
    {
        let mut r: Vec<String> = Vec::new();
        let mut i: usize = 0;
        while i < self.entries.len()
            invariant
                i <= self.entries.len(),
                r@.len() == i,
                forall|k: int| 0 <= k < i ==> (#[trigger] r@[k])@ == self@[k].label,
            decreases self.entries.len() - i,
        {
            assert(self@[i as int] == self.entries@[i as int]@);
            r.push(self.entries[i].label.clone());
            i += 1;
        }
        r
    }

    /// Takes in the quality `label` with the manifest `url`, unless the set
    /// has that quality already: the first entry of a label stays.
    pub fn insert_first(&mut self, label: String, url: String)
        requires
            old(self).wf(),
        ensures
            final(self).wf(),
            final(self)@ == if place_of(old(self)@, label@) is Some {
                old(self)@
            } else {
                old(self)@.push(VariantView { label: label@, url: url@ })
            },
    {
        let ghost before = self@;
        proof {
            lemma_place_of(before, label@);
        }
        if self.find_label(label.as_str()).is_none() {
            self.entries.push(Variant { label, url });
            assert(self@ == before.push(VariantView { label: label@, url: url@ }));
        }
    }
}

/// Whether the platform refuses the manifest with the lines `lines`: its
/// first line holds the marker.
pub open spec fn is_restricted(lines: Seq<Seq<char>>) -> bool {
    lines.len() > 0 && contains(lines[0], RESTRICTED_MARKER@)
}

/// Whether `line` declares a variant.
pub open spec fn is_variant_line(line: Seq<char>) -> bool {
    contains(line, VARIANT_TAG@)
}

/// Whether `line` is a comment or a tag: it begins with `#`.
pub open spec fn is_comment(line: Seq<char>) -> bool {
    line.len() > 0 && line[0] == '#'
}

/// The label that `line` declares: what stands between the first `NAME="`
/// and the next quotation mark.
pub open spec fn label_of(line: Seq<char>) -> Option<Seq<char>> {
    match find(line, NAME_ATTRIBUTE@) {
        None => None,
        Some(i) => {
            let rest = line.skip(i + NAME_ATTRIBUTE@.len());
            match first_index_of(rest, '"') {
                None => None,
                Some(j) => Some(rest.subrange(0, j)),
            }
        },
    }
}

/// The index of the first of `lines[from..]` that is no comment.
pub open spec fn next_plain_line(lines: Seq<Seq<char>>, from: int) -> Option<int>
    decreases lines.len() - from,
{
    if from < 0 || from >= lines.len() {
        None
    } else if !is_comment(lines[from]) {
        Some(from)
    } else {
        next_plain_line(lines, from + 1)
    }
}

/// The variants that `lines[i..]` add to `found`: each variant line whose
/// label `found` lacks adds that label, with the next line after it that is
/// no comment as its manifest.
pub open spec fn variants_from(lines: Seq<Seq<char>>, i: int, found: Seq<VariantView>) -> Result<
    Seq<VariantView>,
    ErrorView,
>
    decreases lines.len() - i,
{
    if i < 0 || i >= lines.len() {
        Ok(found)
    } else if !is_variant_line(lines[i]) {
        variants_from(lines, i + 1, found)
    } else {
        match label_of(lines[i]) {
            None => Err(ErrorView { kind: ErrorKind::ManifestParse, details: MISSING_VARIANT_NAME@ }),
            Some(label) => if place_of(found, label) is Some {
                variants_from(lines, i + 1, found)
            } else {
                match next_plain_line(lines, i + 1) {
                    None => Err(
                        ErrorView { kind: ErrorKind::ManifestParse, details: MISSING_VARIANT_URL@ },
                    ),
                    Some(j) => variants_from(
                        lines,
                        i + 1,
                        found.push(VariantView { label: label, url: lines[j] }),
                    ),
                }
            },
        }
    }
}

/// The qualities that the master manifest with the lines `lines` offers.
pub open spec fn variants_outcome(lines: Seq<Seq<char>>) -> Result<Seq<VariantView>, ErrorView> {
    if is_restricted(lines) {
        Err(ErrorView { kind: ErrorKind::AccessRestricted, details: ACCESS_RESTRICTED@ })
    } else {
        variants_from(lines, 0, Seq::<VariantView>::empty())
    }
}

/// Reads the label that `line` declares.
fn read_label(line: &Vec<char>, name_attribute: &Vec<char>) -> (r: Option<String>)
    requires
        name_attribute@ == NAME_ATTRIBUTE@,
    ensures
        match r {
            Some(label) => label_of(line@) == Some(label@),
            None => label_of(line@) == None::<Seq<char>>,
        },
{
    let start = match find_in(line, name_attribute) {
        Some(i) => {
            assert(i + name_attribute.len() <= line.len());
            i + name_attribute.len()
        },
        None => {
            return None;
        },
    };
    let mut end: usize = start;
    let ghost rest = line@.skip(start as int);
    assert(rest.skip(0) == rest);
    while end < line.len()
        invariant
            start <= end <= line.len(),
            rest == line@.skip(start as int),
            find(line@, NAME_ATTRIBUTE@) == Some(start - NAME_ATTRIBUTE@.len()),
            first_index_of(rest, '"') == match first_index_of(rest.skip(end - start), '"') {
                Some(k) => Some(k + end - start),
                None => None,
            },
        decreases line.len() - end,
    {
        assert(rest.skip(end - start)[0] == line@[end as int]);
        if line[end] == '"' {
            assert(first_index_of(rest.skip(end - start), '"') == Some(0int));
            assert(rest.subrange(0, end - start) == line@.subrange(start as int, end as int));
            return Some(string_of_range(line, start, end));
        }
        assert(rest.skip(end - start).skip(1) == rest.skip(end + 1 - start));
        end += 1;
    }
    None
}

/// The index of the first of `lines[from..]` that is no comment.
fn find_plain_line(lines: &Vec<Vec<char>>, from: usize) -> (r: Option<usize>)
    ensures
        match r {
            Some(j) => next_plain_line(lines_view(lines@), from as int) == Some(j as int) && j
                < lines.len(),
            None => next_plain_line(lines_view(lines@), from as int) == None::<int>,
        },
{
    let ghost all = lines_view(lines@);
    let mut j: usize = from;
    while j < lines.len()
        invariant
            from <= j,
            all == lines_view(lines@),
            next_plain_line(all, from as int) == next_plain_line(all, j as int),
        decreases lines.len() - j,
    {
        let line = &lines[j];
        assert(all[j as int] == line@);
        if !(line.len() > 0 && line[0] == '#') {
            return Some(j);
        }
        j += 1;
    }
    None
}

/// Reads the qualities of a master manifest that is already split into
/// lines.
pub fn variants_of_lines(lines: &Vec<Vec<char>>) -> (r: Result<VariantSet, TwitchClientError>)
    ensures
        match r {
            Ok(set) => variants_outcome(lines_view(lines@)) == Ok::<Seq<VariantView>, ErrorView>(
                set@,
            ) && set.wf(),
            Err(e) => variants_outcome(lines_view(lines@)) == Err::<Seq<VariantView>, ErrorView>(
                e@,
            ),
        },
{
    let ghost all = lines_view(lines@);
    let restricted_marker = chars_of(RESTRICTED_MARKER);
    let variant_tag = chars_of(VARIANT_TAG);
    let name_attribute = chars_of(NAME_ATTRIBUTE);
    if lines.len() > 0 {
        assert(all[0] == lines@[0]@);
        if contains_text(&lines[0], &restricted_marker) {
            return Err(TwitchClientError::of(ErrorKind::AccessRestricted, ACCESS_RESTRICTED));
        }
    }
    let mut set = VariantSet::new();
    let mut i: usize = 0;
    while i < lines.len()
        invariant
            i <= lines.len(),
            all == lines_view(lines@),
            variant_tag@ == VARIANT_TAG@,
            name_attribute@ == NAME_ATTRIBUTE@,
            set.wf(),
            !is_restricted(all),
            variants_from(all, 0, Seq::<VariantView>::empty()) == variants_from(all, i as int, set@),
        decreases lines.len() - i,
    {
        let line = &lines[i];
        assert(all[i as int] == line@);
        if contains_text(line, &variant_tag) {
            let label = match read_label(line, &name_attribute) {
                Some(label) => label,
                None => {
                    return Err(
                        TwitchClientError::of(ErrorKind::ManifestParse, MISSING_VARIANT_NAME),
                    );
                },
            };
            if !set.contains_key(label.as_str()) {
                let j = match find_plain_line(lines, i + 1) {
                    Some(j) => j,
                    None => {
                        return Err(
                            TwitchClientError::of(ErrorKind::ManifestParse, MISSING_VARIANT_URL),
                        );
                    },
                };
                assert(all[j as int] == lines@[j as int]@);
                let url = string_of(&lines[j]);
                set.insert_first(label, url);
            }
        }
        i += 1;
    }
    Ok(set)
}

/// The address of the master manifest of the video `video_id`, signed with
/// the token of the value `value` and the signature `signature`.
pub open spec fn playlist_uri_of(video_id: Seq<char>, value: Seq<char>, signature: Seq<char>) -> Seq<
    char,
> {
    PLAYLIST_SERVER@ + video_id + TOKEN_PARAMETER@ + value + SIGNATURE_PARAMETER@ + signature
        + PLAYLIST_OPTIONS@
}

/// The media manifest that `set` holds for the quality `quality`; the
/// error for a quality that the video does not have.
pub open spec fn selection_outcome(set: Map<Seq<char>, Seq<char>>, quality: Seq<char>) -> Result<
    Seq<char>,
    ErrorView,
> {
    if set.contains_key(quality) {
        Ok(set[quality])
    } else {
        Err(ErrorView { kind: ErrorKind::ManifestParse, details: MISSING_QUALITY@ + quality })
    }
}

/// The resolver of quality variants.
pub struct VariantPlaylistResolver;

impl VariantPlaylistResolver {
    /// The media manifest of the quality `quality` among `variants`. A
    /// quality that the video does not have is an error: the label asked
    /// for must be one that the master manifest declares.
    pub fn select(variants: &VariantSet, quality: &str) -> (r: Result<String, TwitchClientError>)
        ensures
            match r {
                Ok(url) => selection_outcome(variants.as_map(), quality@) == Ok::<
                    Seq<char>,
                    ErrorView,
                >(url@),
                Err(e) => selection_outcome(variants.as_map(), quality@) == Err::<
                    Seq<char>,
                    ErrorView,
                >(e@),
            },
    {
        match variants.get(quality) {
            Some(url) => Ok(url),
            None => {
                let message = String::from_str(MISSING_QUALITY).concat(quality);
                Err(TwitchClientError::with_kind(ErrorKind::ManifestParse, message))
            },
        }
    }

    /// The address of the master manifest of the video `video_id`, signed
    /// with `token`.
    pub fn playlist_uri(video_id: &str, token: &AccessToken) -> (uri: String)
        ensures
            uri@ == playlist_uri_of(video_id@, token.value@, token.signature@),
    {
        String::from_str(PLAYLIST_SERVER).concat(video_id).concat(TOKEN_PARAMETER).concat(
            token.value.as_str(),
        ).concat(SIGNATURE_PARAMETER).concat(token.signature.as_str()).concat(PLAYLIST_OPTIONS)
    }

    /// Reads the qualities that the master manifest `manifest` offers.
    ///
    /// A manifest whose first line holds the marker of a restricted video is
    /// refused. Otherwise every line that holds the variant tag declares a
    /// quality under the label of its `NAME` attribute; the manifest of that
    /// quality is the next line after it that is no comment. Of the lines
    /// that declare one label the first decides.
    pub fn resolve_variants(manifest: &str) -> (r: Result<VariantSet, TwitchClientError>)
        ensures
            match r {
                Ok(set) => variants_outcome(split_lines(manifest@)) == Ok::<
                    Seq<VariantView>,
                    ErrorView,
                >(set@) && set.wf(),
                Err(e) => variants_outcome(split_lines(manifest@)) == Err::<
                    Seq<VariantView>,
                    ErrorView,
                >(e@),
            },
    {
        let text = chars_of(manifest);
        let lines = lines_of(&text);
        variants_of_lines(&lines)
    }
}

/// The index of the first of `lines[from..]` that declares the label
/// `label`.
pub open spec fn first_declaration(lines: Seq<Seq<char>>, label: Seq<char>, from: int) -> Option<
    int,
>
    decreases lines.len() - from,
{
    if from < 0 || from >= lines.len() {
        None
    } else if is_variant_line(lines[from]) && label_of(lines[from]) == Some(label) {
        Some(from)
    } else {
        first_declaration(lines, label, from + 1)
    }
}

/// What `first_declaration` finds is the first line from `from` on that
/// declares the label.
pub proof fn lemma_first_declaration(lines: Seq<Seq<char>>, label: Seq<char>, from: int)
    requires
        0 <= from,
    ensures
        match first_declaration(lines, label, from) {
            Some(i) => from <= i < lines.len() && is_variant_line(lines[i]) && label_of(lines[i])
                == Some(label) && forall|t: int|
                from <= t < i ==> !(is_variant_line(#[trigger] lines[t]) && label_of(lines[t])
                    == Some(label)),
            None => forall|t: int|
                from <= t < lines.len() ==> !(is_variant_line(#[trigger] lines[t]) && label_of(
                    lines[t],
                ) == Some(label)),
        },
    decreases lines.len() - from,
{
    if from < lines.len() && !(is_variant_line(lines[from]) && label_of(lines[from]) == Some(
        label,
    )) {
        lemma_first_declaration(lines, label, from + 1);
    }
}

/// Whether the variant `v` is what the first of `lines[..before]` that
/// declares its label says: its manifest is the next line after that one
/// that is no comment.
pub open spec fn first_declared(v: VariantView, lines: Seq<Seq<char>>, before: int) -> bool {
    match first_declaration(lines, v.label, 0) {
        Some(i) => i < before && match next_plain_line(lines, i + 1) {
            Some(j) => v.url == lines[j],
            None => false,
        },
        None => false,
    }
}

/// Whether `set` holds the variants that `lines[..before]` declare, each as
/// the first line with its label says.
pub open spec fn first_wins(set: Seq<VariantView>, lines: Seq<Seq<char>>, before: int) -> bool {
    &&& labels_distinct(set)
    &&& forall|k: int| 0 <= k < set.len() ==> first_declared(#[trigger] set[k], lines, before)
    &&& forall|t: int|
        0 <= t < before && t < lines.len() && is_variant_line(#[trigger] lines[t]) ==> label_of(
            lines[t],
        ) is Some && place_of(set, label_of(lines[t])->0) is Some
}

/// Reading on from a set in which the first declarations have won gives a
/// set in which they have won.
proof fn lemma_variants_from(lines: Seq<Seq<char>>, i: int, found: Seq<VariantView>)
    requires
        0 <= i,
        first_wins(found, lines, i),
        variants_from(lines, i, found) is Ok,
    ensures
        first_wins(variants_from(lines, i, found)->Ok_0, lines, lines.len() as int),
    decreases lines.len() - i,
{
    if i >= lines.len() {
        assert forall|k: int| 0 <= k < found.len() implies first_declared(
            #[trigger] found[k],
            lines,
            lines.len() as int,
        ) by {
            assert(first_declared(found[k], lines, i));
            lemma_first_declaration(lines, found[k].label, 0);
        }
    } else if !is_variant_line(lines[i]) {
        assert forall|k: int| 0 <= k < found.len() implies first_declared(
            #[trigger] found[k],
            lines,
            i + 1,
        ) by {
            assert(first_declared(found[k], lines, i));
        }
        lemma_variants_from(lines, i + 1, found);
    } else {
        let label = label_of(lines[i])->0;
        lemma_place_of(found, label);
        if place_of(found, label) is Some {
            assert forall|k: int| 0 <= k < found.len() implies first_declared(
                #[trigger] found[k],
                lines,
                i + 1,
            ) by {
                assert(first_declared(found[k], lines, i));
            }
            lemma_variants_from(lines, i + 1, found);
        } else {
            let j = next_plain_line(lines, i + 1)->0;
            let fresh = VariantView { label: label, url: lines[j] };
            let next = found.push(fresh);
            lemma_first_declaration(lines, label, 0);
            assert(first_declaration(lines, label, 0) == Some(i)) by {
                assert forall|t: int| 0 <= t < i implies !(is_variant_line(#[trigger] lines[t])
                    && label_of(lines[t]) == Some(label)) by {
                    if is_variant_line(lines[t]) && label_of(lines[t]) == Some(label) {
                        assert(place_of(found, label_of(lines[t])->0) is Some);
                    }
                }
            }
            assert forall|k: int| 0 <= k < next.len() implies first_declared(
                #[trigger] next[k],
                lines,
                i + 1,
            ) by {
                if k < found.len() {
                    assert(next[k] == found[k]);
                    assert(first_declared(found[k], lines, i));
                }
            }
            assert(next.drop_last() == found);
            assert forall|t: int|
                0 <= t < i + 1 && t < lines.len() && is_variant_line(
                    #[trigger] lines[t],
                ) implies label_of(lines[t]) is Some && place_of(next, label_of(lines[t])->0)
                is Some by {
                if t < i {
                    assert(place_of(found, label_of(lines[t])->0) is Some);
                }
            }
            assert forall|a: int, b: int| 0 <= a < b < next.len() implies (#[trigger] next[a]).label
                != (#[trigger] next[b]).label by {
                if b < found.len() {
                    assert(next[a] == found[a] && next[b] == found[b]);
                } else {
                    assert(next[a] == found[a]);
                }
            }
            lemma_variants_from(lines, i + 1, next);
        }
    }
}

/// Where a master manifest declares a label more than once, the set holds
/// that label once, with the manifest that the first declaration names; and
/// the set holds every label that the manifest declares.
pub proof fn lemma_first_variant_wins(lines: Seq<Seq<char>>)
    requires
        variants_outcome(lines) is Ok,
    ensures
        first_wins(variants_outcome(lines)->Ok_0, lines, lines.len() as int),
{
    lemma_variants_from(lines, 0, Seq::<VariantView>::empty());
}

} // verus!
