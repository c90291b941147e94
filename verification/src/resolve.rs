//! Turning one volume's page edits into the final ordered page list.
use vstd::prelude::*;
use std::collections::BTreeMap;
use crate::edits::{entry_key, shown_page, volume_for_key, is_default_edit, PageEditEntry, PageEditSource, VolumeEdit, VolumeMeta};
use crate::error::ConvertError;
use crate::paths::file_name_of;
use crate::scan::{is_scan_layout, shown_file_name, volume_meta_matches, ScanLayout, ScannedImage};
use crate::pipeline_plan::{added_in, added_total, excluded_in, excluded_total, page_total};

verus! {

broadcast use vstd::std_specs::btree::group_btree_axioms, vstd::laws_cmp::group_laws_cmp;

/// Largest custom image accepted, in bytes.
pub const MAX_CUSTOM_IMAGE_BYTES: u64 = 512 * 1024 * 1024;

/// What the file system reports of an existing path.
#[derive(Clone, Copy, Debug)]
pub struct FileFacts {
    pub is_file: bool,
    pub len: u64,
}

/// What the caller found out about one custom image: whether its type is a
/// supported image type, and its metadata or the message of the error that
/// reading the metadata gave.
#[derive(Debug)]
pub struct CustomImageFacts {
    pub supported: bool,
    pub metadata: Result<FileFacts, String>,
}

/// One page of the resolved list.
#[derive(Clone, Debug)]
pub enum ResolvedPage {
    /// The scanned image at position `image` of the scan's image list.
    Scanned { image: usize },
    /// An image added by hand, with its file name as its path relative to
    /// the source; the first page of a volume is its cover.
    Custom { path: String, relative_path: String, volume_num: u32, is_cover: bool },
}

/// The value of a resolved page, with the path as text.
pub enum ResolvedPageView {
    Scanned { image: int },
    Custom { path: Seq<char>, relative_path: Seq<char>, volume_num: u32, is_cover: bool },
}

impl View for ResolvedPage {
    type V = ResolvedPageView;

    open spec fn view(&self) -> ResolvedPageView {
        match self {
            ResolvedPage::Scanned { image } => ResolvedPageView::Scanned { image: *image as int },
            ResolvedPage::Custom { path, relative_path, volume_num, is_cover } => ResolvedPageView::Custom {
                path: path@,
                relative_path: relative_path@,
                volume_num: *volume_num,
                is_cover: *is_cover,
            },
        }
    }
}

/// The ways a custom image is refused.
pub enum CustomImageRefusal {
    Unsupported { path: Seq<char> },
    Metadata { path: Seq<char>, message: Seq<char> },
    NotFile { path: Seq<char> },
    TooLarge { path: Seq<char>, bytes: u64 },
}

/// Whether a conversion error is the given refusal.
pub open spec fn error_is_refusal(error: ConvertError, refusal: CustomImageRefusal) -> bool {
    match refusal {
        CustomImageRefusal::Unsupported { path } => error matches ConvertError::UnsupportedCustomImage {
            path: p,
        } && p@ == path,
        CustomImageRefusal::Metadata { path, message } => error matches ConvertError::CustomImageMetadata {
            path: p,
            message: m,
        } && p@ == path && m@ == message,
        CustomImageRefusal::NotFile { path } => error matches ConvertError::CustomImageNotFile {
            path: p,
        } && p@ == path,
        CustomImageRefusal::TooLarge { path, bytes } => error matches ConvertError::CustomImageTooLarge {
            path: p,
            bytes: b,
        } && p@ == path && b == bytes,
    }
}

/// Why a custom image is refused, if it is: an unsupported type first, then
/// unreadable metadata, then a path that is not a file, then a size over the limit.
pub open spec fn custom_image_refusal(path: Seq<char>, facts: CustomImageFacts) -> Option<CustomImageRefusal> {
    if !facts.supported {
        Some(CustomImageRefusal::Unsupported { path })
    } else {
        match facts.metadata {
            Err(message) => Some(CustomImageRefusal::Metadata { path, message: message@ }),
            Ok(meta) => if !meta.is_file {
                Some(CustomImageRefusal::NotFile { path })
            } else if meta.len > MAX_CUSTOM_IMAGE_BYTES {
                Some(CustomImageRefusal::TooLarge { path, bytes: meta.len })
            } else {
                None
            },
        }
    }
}

/// Checks a custom image against what the caller found out about it.
pub fn validate_custom_image(path: &String, facts: &CustomImageFacts) -> (result: Result<(), ConvertError>)
    ensures
        match custom_image_refusal(path@, *facts) {
            None => result is Ok,
            Some(refusal) => result is Err && error_is_refusal(result->Err_0, refusal),
        },
{
    if !facts.supported {
        return Err(ConvertError::UnsupportedCustomImage { path: path.clone() });
    }
    match &facts.metadata {
        Err(message) => Err(ConvertError::CustomImageMetadata { path: path.clone(), message: message.clone() }),
        Ok(meta) => {
            if !meta.is_file {
                Err(ConvertError::CustomImageNotFile { path: path.clone() })
            } else if meta.len > MAX_CUSTOM_IMAGE_BYTES {
                Err(ConvertError::CustomImageTooLarge { path: path.clone(), bytes: meta.len })
            } else {
                Ok(())
            }
        },
    }
}

/// The scan groups collected into a map from scan number to the group's
/// images (positions in the scan's image list, in page order): when several
/// groups carry a number, the last one stays.
pub open spec fn scan_map_of(groups: Seq<(u32, Vec<usize>)>) -> Map<u32, Seq<usize>>
    decreases groups.len(),
{
    if groups.len() == 0 {
        Map::empty()
    } else {
        scan_map_of(groups.drop_last()).insert(groups.last().0, groups.last().1@)
    }
}

/// The images of each scan group of a map, as sequences.
pub open spec fn group_images(scan_map: Map<u32, Vec<usize>>) -> Map<u32, Seq<usize>> {
    scan_map.map_values(|images: Vec<usize>| images@)
}

/// The paths of the custom entries that are kept, in order: the images whose
/// facts the resolution needs.
pub open spec fn kept_custom_paths(entries: Seq<PageEditEntry>) -> Seq<Seq<char>>
    decreases entries.len(),
{
    if entries.len() == 0 {
        Seq::empty()
    } else {
        let rest = kept_custom_paths(entries.drop_last());
        let entry = entries.last();
        match entry.source {
            PageEditSource::Custom { path } => if entry.excluded { rest } else { rest.push(path@) },
            PageEditSource::Original { .. } => rest,
        }
    }
}

/// The page list of a volume edit over scan groups given by number, with `facts[k]` describing the `k`-th kept custom image: excluded
/// entries are skipped, an original entry whose group or page is missing is
/// dropped, the first refused custom image ends the resolution with its error,
/// and an accepted custom image carries its file name (empty when the path
/// has none) as its relative path and is the cover when it comes first.
pub open spec fn resolved_pages(
    volume_num: u32,
    groups: Map<u32, Seq<usize>>,
    entries: Seq<PageEditEntry>,
    facts: Seq<CustomImageFacts>,
) -> Result<Seq<ResolvedPageView>, CustomImageRefusal>
    decreases entries.len(),
{
    if entries.len() == 0 {
        Ok(Seq::empty())
    } else {
        let prefix = entries.drop_last();
        let entry = entries.last();
        match resolved_pages(volume_num, groups, prefix, facts) {
            Err(refusal) => Err(refusal),
            Ok(pages) => if entry.excluded {
                Ok(pages)
            } else {
                match entry.source {
                    PageEditSource::Original { page_index, source_volume_num } => {
                        let key = match source_volume_num {
                            Some(n) => n,
                            None => volume_num,
                        };
                        if groups.contains_key(key) && page_index < groups[key].len() {
                            Ok(pages.push(ResolvedPageView::Scanned { image: groups[key][page_index as int] as int }))
                        } else {
                            Ok(pages)
                        }
                    },
                    PageEditSource::Custom { path } => {
                        match custom_image_refusal(path@, facts[kept_custom_paths(prefix).len() as int]) {
                            Some(refusal) => Err(refusal),
                            None => Ok(pages.push(ResolvedPageView::Custom {
                                path: path@,
                                relative_path: shown_file_name(path@),
                                volume_num,
                                is_cover: pages.len() == 0,
                            })),
                        }
                    },
                }
            },
        }
    }
}

/// The paths of the kept custom entries of an edit, in order.
pub fn custom_image_paths(edit: &VolumeEdit) -> (paths: Vec<String>)
    ensures
        paths@.map_values(|p: String| p@) == kept_custom_paths(edit.pages@),
{
    let mut paths: Vec<String> = Vec::new();
    let mut i: usize = 0;
    while i < edit.pages.len()
        invariant
            i <= edit.pages@.len(),
            paths@.map_values(|p: String| p@) == kept_custom_paths(edit.pages@.take(i as int)),
        decreases edit.pages@.len() - i,
    {
        let entry = &edit.pages[i];
        proof {
            assert(edit.pages@.take(i + 1).drop_last() == edit.pages@.take(i as int));
        }
        if !entry.excluded {
            match &entry.source {
                PageEditSource::Custom { path } => {
                    paths.push(path.clone());
                },
                PageEditSource::Original { .. } => {},
            }
        }
        i = i + 1;
        proof {
            assert(paths@.map_values(|p: String| p@) =~= kept_custom_paths(edit.pages@.take(i as int)));
        }
    }
    proof {
        assert(edit.pages@.take(i as int) == edit.pages@);
    }
    paths
}

/// Collects the scan groups into a map by scan number, the last group with a
/// number winning.
pub fn scan_map(groups: &Vec<(u32, Vec<usize>)>) -> (map: BTreeMap<u32, Vec<usize>>)
    ensures
        group_images(map@) == scan_map_of(groups@),
{
    let mut map: BTreeMap<u32, Vec<usize>> = BTreeMap::new();
    let mut i: usize = 0;
    proof {
        assert(groups@.take(0) == Seq::<(u32, Vec<usize>)>::empty());
        assert(group_images(map@) =~= Map::<u32, Seq<usize>>::empty());
    }
    while i < groups.len()
        invariant
            i <= groups@.len(),
            group_images(map@) == scan_map_of(groups@.take(i as int)),
        decreases groups@.len() - i,
    {
        let images = copy_indices(&groups[i].1);
        let _replaced = map.insert(groups[i].0, images);
        proof {
            assert(groups@.take(i + 1).drop_last() == groups@.take(i as int));
            assert(group_images(map@) =~= scan_map_of(groups@.take(i + 1)));
        }
        i = i + 1;
    }
    proof {
        assert(groups@.take(i as int) == groups@);
    }
    map
}

/// A copy of a list of positions.
fn copy_indices(indices: &Vec<usize>) -> (copy: Vec<usize>)
    ensures
        copy@ == indices@,
{
    let mut copy: Vec<usize> = Vec::new();
    let mut i: usize = 0;
    while i < indices.len()
        invariant
            i <= indices@.len(),
            copy@ == indices@.take(i as int),
        decreases indices@.len() - i,
    {
        copy.push(indices[i]);
        i = i + 1;
        proof {
            assert(copy@ =~= indices@.take(i as int));
        }
    }
    proof {
        assert(indices@.take(i as int) == indices@);
    }
    copy
}

/// Resolves one volume's edit against the scan groups, keyed by scan number
/// (see `scan_map`), and the facts of its kept custom images in order (see
/// `custom_image_paths`).
pub fn resolve_edit_pages(
    edit: &VolumeEdit,
    groups: &BTreeMap<u32, Vec<usize>>,
    facts: &Vec<CustomImageFacts>,
) -> (result: Result<Vec<ResolvedPage>, ConvertError>)
    requires
        facts@.len() == kept_custom_paths(edit.pages@).len(),
    ensures
        match resolved_pages(edit.volume_num, group_images(groups@), edit.pages@, facts@) {
            Ok(pages) => result is Ok && result->Ok_0@.map_values(|p: ResolvedPage| p@) == pages,
            Err(refusal) => result is Err && error_is_refusal(result->Err_0, refusal),
        },
        result is Ok ==> forall|k: int|
            0 <= k < result->Ok_0@.len() && #[trigger] result->Ok_0@[k] is Custom ==> (
            result->Ok_0@[k]->Custom_is_cover <==> k == 0),
{
    let mut pages: Vec<ResolvedPage> = Vec::new();
    let mut i: usize = 0;
    let mut next_fact: usize = 0;
    let n_facts = facts.len();
    proof {
        assert(edit.pages@.take(0) == Seq::<PageEditEntry>::empty());
        assert(pages@.map_values(|p: ResolvedPage| p@) =~= Seq::<ResolvedPageView>::empty());
    }
    while i < edit.pages.len()
        invariant
            i <= edit.pages@.len(),
            facts@.len() == kept_custom_paths(edit.pages@).len(),
            n_facts == facts@.len(),
            next_fact == kept_custom_paths(edit.pages@.take(i as int)).len(),
            resolved_pages(edit.volume_num, group_images(groups@), edit.pages@.take(i as int), facts@) == Ok::<
                Seq<ResolvedPageView>,
                CustomImageRefusal,
            >(pages@.map_values(|p: ResolvedPage| p@)),
        decreases edit.pages@.len() - i,
    {
        let entry = &edit.pages[i];
        let ghost prefix = edit.pages@.take(i as int);
        proof {
            assert(edit.pages@.take(i + 1).drop_last() == prefix);
            assert(edit.pages@.take(i + 1).last() == *entry);
            lemma_kept_custom_paths_prefix(edit.pages@, i + 1);
        }
        if !entry.excluded {
            match &entry.source {
                PageEditSource::Original { page_index, source_volume_num } => {
                    let key = match source_volume_num {
                        Some(n) => *n,
                        None => edit.volume_num,
                    };
                    match groups.get(&key) {
                        Some(images) => {
                            if (*page_index as usize) < images.len() {
                                pages.push(ResolvedPage::Scanned { image: images[*page_index as usize] });
                            }
                        },
                        None => {},
                    }
                },
                PageEditSource::Custom { path } => {
                    let checked = validate_custom_image(path, &facts[next_fact]);
                    match checked {
                        Err(error) => {
                            proof {
                                lemma_refusal_persists(edit.volume_num, group_images(groups@), edit.pages@, facts@, i + 1);
                            }
                            return Err(error);
                        },
                        Ok(()) => {
                            assert(kept_custom_paths(edit.pages@.take(i + 1)) == kept_custom_paths(prefix).push(path@));
                            let is_cover = pages.len() == 0;
                            let relative_path = match file_name_of(path.as_str()) {
                                Some(name) => name,
                                None => String::new(),
                            };
                            pages.push(
                                ResolvedPage::Custom { path: path.clone(), relative_path, volume_num: edit.volume_num, is_cover },
                            );
                            assert(next_fact < n_facts);
                            next_fact = next_fact + 1;
                        },
                    }
                },
            }
        }
        i = i + 1;
        proof {
            assert(pages@.map_values(|p: ResolvedPage| p@) =~= match resolved_pages(
                edit.volume_num,
                group_images(groups@),
                edit.pages@.take(i as int),
                facts@,
            ) {
                Ok(s) => s,
                Err(_) => Seq::empty(),
            });
        }
    }
    proof {
        assert(edit.pages@.take(i as int) == edit.pages@);
        law_cover_is_first_page(edit.volume_num, group_images(groups@), edit.pages@, facts@);
        assert forall|k: int| 0 <= k < pages@.len() && #[trigger] pages@[k] is Custom implies (
            pages@[k]->Custom_is_cover <==> k == 0) by {
            assert(pages@.map_values(|p: ResolvedPage| p@)[k] == pages@[k]@);
        }
    }
    Ok(pages)
}

/// The kept custom images of a prefix are no more than those of the whole list.
proof fn lemma_kept_custom_paths_prefix(entries: Seq<PageEditEntry>, n: int)
    requires
        0 <= n <= entries.len(),
    ensures
        kept_custom_paths(entries.take(n)).len() <= kept_custom_paths(entries).len(),
    decreases entries.len() - n,
{
    if n < entries.len() {
        lemma_kept_custom_paths_prefix(entries, n + 1);
        assert(entries.take(n + 1).drop_last() == entries.take(n));
    } else {
        assert(entries.take(n) == entries);
    }
}

/// Once a prefix is refused, every longer prefix is refused the same way.
proof fn lemma_refusal_persists(
    volume_num: u32,
    groups: Map<u32, Seq<usize>>,
    entries: Seq<PageEditEntry>,
    facts: Seq<CustomImageFacts>,
    n: int,
)
    requires
        0 <= n <= entries.len(),
        resolved_pages(volume_num, groups, entries.take(n), facts) is Err,
    ensures
        resolved_pages(volume_num, groups, entries, facts) == resolved_pages(volume_num, groups, entries.take(n), facts),
    decreases entries.len() - n,
{
    if n < entries.len() {
        assert(entries.take(n + 1).drop_last() == entries.take(n));
        lemma_refusal_persists(volume_num, groups, entries, facts, n + 1);
    } else {
        assert(entries.take(n) == entries);
    }
}

/// An untouched page editor converts exactly the scanned pages of its group,
/// in scan order: resolving the default edit of a scan group against scan
/// groups that hold that group's images under its number gives its images
/// in page order and needs no custom image.
pub proof fn law_default_edit_resolves_to_scan(
    volume: VolumeMeta,
    groups: Map<u32, Seq<usize>>,
    edit: VolumeEdit,
)
    requires
        groups.contains_key(volume.volume_num),
        groups[volume.volume_num].len() == volume.pages@.len(),
        forall|p: int| 0 <= p < volume.pages@.len() ==> {
            let page = #[trigger] volume.pages@[p];
            page.page_index == p && page.volume_num == volume.volume_num
        },
        is_default_edit(volume, edit),
    ensures
        kept_custom_paths(edit.pages@).len() == 0,
        resolved_pages(edit.volume_num, groups, edit.pages@, Seq::empty()) == Ok::<
            Seq<ResolvedPageView>,
            CustomImageRefusal,
        >(Seq::new(edit.pages@.len(), |p: int| ResolvedPageView::Scanned { image: groups[volume.volume_num][p] as int })),
{
    lemma_default_prefix(volume, groups, edit, edit.pages@.len() as int);
    assert(edit.pages@.take(edit.pages@.len() as int) == edit.pages@);
}

proof fn lemma_default_prefix(volume: VolumeMeta, groups: Map<u32, Seq<usize>>, edit: VolumeEdit, n: int)
    requires
        groups.contains_key(volume.volume_num),
        groups[volume.volume_num].len() == volume.pages@.len(),
        forall|p: int| 0 <= p < volume.pages@.len() ==> {
            let page = #[trigger] volume.pages@[p];
            page.page_index == p && page.volume_num == volume.volume_num
        },
        is_default_edit(volume, edit),
        0 <= n <= edit.pages@.len(),
    ensures
        kept_custom_paths(edit.pages@.take(n)).len() == 0,
        resolved_pages(edit.volume_num, groups, edit.pages@.take(n), Seq::empty()) == Ok::<
            Seq<ResolvedPageView>,
            CustomImageRefusal,
        >(Seq::new(n as nat, |p: int| ResolvedPageView::Scanned { image: groups[volume.volume_num][p] as int })),
    decreases n,
{
    let images = groups[volume.volume_num];
    let target = Seq::new(n as nat, |p: int| ResolvedPageView::Scanned { image: images[p] as int });
    if n == 0 {
        assert(edit.pages@.take(0) == Seq::<PageEditEntry>::empty());
        assert(target =~= Seq::<ResolvedPageView>::empty());
    } else {
        lemma_default_prefix(volume, groups, edit, n - 1);
        let entries = edit.pages@.take(n);
        assert(entries.drop_last() == edit.pages@.take(n - 1));
        assert(entries.last() == edit.pages@[n - 1]);
        let page = volume.pages@[n - 1];
        assert(page.page_index == n - 1);
        let prev = Seq::new((n - 1) as nat, |p: int| ResolvedPageView::Scanned { image: images[p] as int });
        assert(prev.push(ResolvedPageView::Scanned { image: images[n - 1] as int }) =~= target);
    }
}

/// Every kept original entry names a scanned page that exists.
pub open spec fn originals_resolve(volume_num: u32, groups: Map<u32, Seq<usize>>, entries: Seq<PageEditEntry>) -> bool {
    forall|i: int|
        0 <= i < entries.len() && !entries[i].excluded ==> match (#[trigger] entries[i]).source {
            PageEditSource::Original { page_index, source_volume_num } => {
                let key = entry_key(volume_num, source_volume_num);
                groups.contains_key(key) && page_index < groups[key].len()
            },
            PageEditSource::Custom { .. } => true,
        }
}

/// Number of pages added by hand in a resolved list.
pub open spec fn custom_count(pages: Seq<ResolvedPageView>) -> nat
    decreases pages.len(),
{
    if pages.len() == 0 {
        0
    } else {
        custom_count(pages.drop_last()) + if pages.last() is Custom { 1nat } else { 0nat }
    }
}

/// The review step's counts are what gets converted: when every kept
/// original entry names an existing scanned page and the edit resolves, it
/// resolves to as many pages as the preview includes for it (its entries
/// minus the excluded ones), of which the hand-added ones are the preview's
/// added pages.
pub proof fn law_resolution_matches_preview(
    volume_num: u32,
    groups: Map<u32, Seq<usize>>,
    entries: Seq<PageEditEntry>,
    facts: Seq<CustomImageFacts>,
)
    requires
        originals_resolve(volume_num, groups, entries),
        resolved_pages(volume_num, groups, entries, facts) is Ok,
    ensures
        resolved_pages(volume_num, groups, entries, facts)->Ok_0.len() == entries.len() - excluded_in(entries),
        custom_count(resolved_pages(volume_num, groups, entries, facts)->Ok_0) == added_in(entries),
    decreases entries.len(),
{
    if entries.len() > 0 {
        let prefix = entries.drop_last();
        assert forall|i: int| 0 <= i < prefix.len() && !prefix[i].excluded implies match (#[trigger] prefix[i]).source {
            PageEditSource::Original { page_index, source_volume_num } => {
                let key = entry_key(volume_num, source_volume_num);
                groups.contains_key(key) && page_index < groups[key].len()
            },
            PageEditSource::Custom { .. } => true,
        } by {
            assert(prefix[i] == entries[i]);
        }
        law_resolution_matches_preview(volume_num, groups, prefix, facts);
        let last = entries.last();
        assert(last == entries[entries.len() - 1]);
        lemma_counts_step(entries);
        let pages = resolved_pages(volume_num, groups, prefix, facts)->Ok_0;
        if !last.excluded {
            match last.source {
                PageEditSource::Original { page_index, source_volume_num } => {
                    let key = entry_key(volume_num, source_volume_num);
                    let pushed = pages.push(ResolvedPageView::Scanned { image: groups[key][page_index as int] as int });
                    assert(pushed.drop_last() == pages);
                },
                PageEditSource::Custom { path } => {
                    let pushed = pages.push(
                        ResolvedPageView::Custom {
                            path: path@,
                            relative_path: shown_file_name(path@),
                            volume_num,
                            is_cover: pages.len() == 0,
                        },
                    );
                    assert(pushed.drop_last() == pages);
                },
            }
        }
    }
}

proof fn lemma_counts_step(entries: Seq<PageEditEntry>)
    requires
        entries.len() > 0,
    ensures
        excluded_in(entries) == excluded_in(entries.drop_last()) + if entries.last().excluded { 1nat } else { 0nat },
        added_in(entries) == added_in(entries.drop_last()) + if entries.last().is_added() { 1nat } else { 0nat },
        excluded_in(entries.drop_last()) <= entries.len() - 1,
{
    lemma_excluded_bound(entries.drop_last());
}

proof fn lemma_excluded_bound(entries: Seq<PageEditEntry>)
    ensures
        excluded_in(entries) <= entries.len(),
    decreases entries.len(),
{
    if entries.len() > 0 {
        lemma_excluded_bound(entries.drop_last());
    }
}

/// Pages converted over all volume edits, when each resolves; `facts[v]`
/// holds the custom image facts of edit `v`.
pub open spec fn resolved_total(
    groups: Map<u32, Seq<usize>>,
    edits: Seq<VolumeEdit>,
    facts: Seq<Seq<CustomImageFacts>>,
) -> nat
    decreases edits.len(),
{
    if edits.len() == 0 {
        0
    } else {
        let v = edits.len() - 1;
        resolved_total(groups, edits.drop_last(), facts) + match resolved_pages(
            edits[v].volume_num,
            groups,
            edits[v].pages@,
            facts[v],
        ) {
            Ok(pages) => pages.len(),
            Err(_) => 0,
        }
    }
}

/// Hand-added pages converted over all volume edits.
pub open spec fn resolved_custom_total(
    groups: Map<u32, Seq<usize>>,
    edits: Seq<VolumeEdit>,
    facts: Seq<Seq<CustomImageFacts>>,
) -> nat
    decreases edits.len(),
{
    if edits.len() == 0 {
        0
    } else {
        let v = edits.len() - 1;
        resolved_custom_total(groups, edits.drop_last(), facts) + match resolved_pages(
            edits[v].volume_num,
            groups,
            edits[v].pages@,
            facts[v],
        ) {
            Ok(pages) => custom_count(pages),
            Err(_) => 0,
        }
    }
}

/// The pipeline preview counts what a conversion produces: when every
/// volume edit resolves and names only existing scanned pages, the pages
/// converted number the preview's included pages (all entries minus the
/// excluded ones), and the hand-added ones its added pages.
pub proof fn law_plan_matches_conversion(
    groups: Map<u32, Seq<usize>>,
    edits: Seq<VolumeEdit>,
    facts: Seq<Seq<CustomImageFacts>>,
)
    requires
        facts.len() >= edits.len(),
        forall|v: int|
            0 <= v < edits.len() ==> originals_resolve(#[trigger] edits[v].volume_num, groups, edits[v].pages@)
                && resolved_pages(edits[v].volume_num, groups, edits[v].pages@, facts[v]) is Ok,
    ensures
        resolved_total(groups, edits, facts) == page_total(edits) - excluded_total(edits),
        resolved_custom_total(groups, edits, facts) == added_total(edits),
    decreases edits.len(),
{
    if edits.len() > 0 {
        let v = edits.len() - 1;
        let rest = edits.drop_last();
        assert forall|w: int| 0 <= w < rest.len() implies originals_resolve(#[trigger] rest[w].volume_num, groups, rest[w].pages@)
            && resolved_pages(rest[w].volume_num, groups, rest[w].pages@, facts[w]) is Ok by {
            assert(rest[w] == edits[w]);
            assert(originals_resolve(edits[w].volume_num, groups, edits[w].pages@));
        }
        law_plan_matches_conversion(groups, rest, facts);
        assert(originals_resolve(edits[v].volume_num, groups, edits[v].pages@));
        law_resolution_matches_preview(edits[v].volume_num, groups, edits[v].pages@, facts[v]);
        lemma_excluded_bound(edits[v].pages@);
        lemma_excluded_total_bound(rest);
        assert(edits.last() == edits[v]);
    }
}

proof fn lemma_excluded_total_bound(edits: Seq<VolumeEdit>)
    ensures
        excluded_total(edits) <= page_total(edits),
    decreases edits.len(),
{
    if edits.len() > 0 {
        lemma_excluded_total_bound(edits.drop_last());
        lemma_excluded_bound(edits.last().pages@);
    }
}

/// The cover is the first page converted: in a resolved page list, a page
/// added by hand is marked as the cover exactly when no page comes before it,
/// whatever excluded or missing entries stood before it in the edit; and it
/// belongs to the edit's volume.
pub proof fn law_cover_is_first_page(
    volume_num: u32,
    groups: Map<u32, Seq<usize>>,
    entries: Seq<PageEditEntry>,
    facts: Seq<CustomImageFacts>,
)
    requires
        resolved_pages(volume_num, groups, entries, facts) is Ok,
    ensures
        ({
            let pages = resolved_pages(volume_num, groups, entries, facts)->Ok_0;
            forall|k: int| 0 <= k < pages.len() && #[trigger] pages[k] is Custom ==> {
                &&& pages[k]->Custom_is_cover <==> k == 0
                &&& pages[k]->Custom_volume_num == volume_num
            }
        }),
    decreases entries.len(),
{
    if entries.len() > 0 {
        let prefix = entries.drop_last();
        if resolved_pages(volume_num, groups, prefix, facts) is Ok {
            law_cover_is_first_page(volume_num, groups, prefix, facts);
        }
    }
}

/// Looking a scan number up in the collected map finds the images of the
/// last group with that number, as looking it up in the groups' metadata does.
proof fn lemma_scan_map_lookup(volumes: Seq<VolumeMeta>, groups: Seq<(u32, Vec<usize>)>, key: u32)
    requires
        groups.len() == volumes.len(),
        forall|h: int| 0 <= h < groups.len() ==> (#[trigger] groups[h]).0 == volumes[h].volume_num,
    ensures
        match volume_for_key(volumes, key) {
            Some(g) => 0 <= g < groups.len() && scan_map_of(groups).contains_key(key)
                && scan_map_of(groups)[key] == groups[g].1@,
            None => !scan_map_of(groups).contains_key(key),
        },
    decreases volumes.len(),
{
    if volumes.len() > 0 {
        let vs = volumes.drop_last();
        let gs = groups.drop_last();
        assert forall|h: int| 0 <= h < gs.len() implies (#[trigger] gs[h]).0 == vs[h].volume_num by {
            assert(gs[h] == groups[h]);
            assert(vs[h] == volumes[h]);
        }
        assert(groups.last() == groups[groups.len() - 1]);
        lemma_scan_map_lookup(vs, gs, key);
    }
}

/// A scan number that only one group carries finds that group.
proof fn lemma_volume_for_unique_key(volumes: Seq<VolumeMeta>, g: int)
    requires
        0 <= g < volumes.len(),
        forall|h: int| 0 <= h < volumes.len() && h != g ==> (#[trigger] volumes[h]).volume_num != volumes[g].volume_num,
    ensures
        volume_for_key(volumes, volumes[g].volume_num) == Some(g),
    decreases volumes.len(),
{
    if g < volumes.len() - 1 {
        let rest = volumes.drop_last();
        assert forall|h: int| 0 <= h < rest.len() && h != g implies (#[trigger] rest[h]).volume_num != rest[g].volume_num by {
            assert(rest[h] == volumes[h]);
        }
        assert(volumes.last() == volumes[volumes.len() - 1]);
        lemma_volume_for_unique_key(rest, g);
    }
}

/// Scanning and then converting without touching the page editor converts
/// each scan group's images exactly, in their scanned order.
pub proof fn law_untouched_scan_converts_scanned_pages(
    images: Seq<ScannedImage>,
    layout: ScanLayout,
    g: int,
    edit: VolumeEdit,
)
    requires
        is_scan_layout(images, layout),
        0 <= g < layout.volumes@.len(),
        is_default_edit(layout.volumes@[g], edit),
    ensures
        resolved_pages(edit.volume_num, scan_map_of(layout.groups@), edit.pages@, Seq::empty()) == Ok::<
            Seq<ResolvedPageView>,
            CustomImageRefusal,
        >(Seq::new(edit.pages@.len(), |p: int| ResolvedPageView::Scanned { image: layout.groups@[g].1@[p] as int })),
{
    let volumes = layout.volumes@;
    let groups = layout.groups@;
    assert forall|h: int| 0 <= h < groups.len() implies (#[trigger] groups[h]).0 == volumes[h].volume_num by {
        assert(volume_meta_matches(volumes[h], images, h + 1, crate::scan::group_members(groups)[h]));
    }
    assert forall|h: int| 0 <= h < volumes.len() && h != g implies (#[trigger] volumes[h]).volume_num
        != volumes[g].volume_num by {
        assert(volume_meta_matches(volumes[h], images, h + 1, crate::scan::group_members(groups)[h]));
        assert(volume_meta_matches(volumes[g], images, g + 1, crate::scan::group_members(groups)[g]));
    }
    let key = volumes[g].volume_num;
    lemma_volume_for_unique_key(volumes, g);
    lemma_scan_map_lookup(volumes, groups, key);
    assert(volume_meta_matches(volumes[g], images, g + 1, crate::scan::group_members(groups)[g]));
    assert(crate::scan::group_members(groups)[g] == groups[g].1@);
    law_default_edit_resolves_to_scan(volumes[g], scan_map_of(groups), edit);
}

/// The page editor shows the page a conversion converts: an original entry
/// of the edit for volume `volume_num` shows a scanned page exactly when its
/// resolution takes an image from the collected scan groups, and then the
/// page shown and the image converted stand at the same place of the same
/// group.
pub proof fn law_editor_shows_converted_page(
    volumes: Seq<VolumeMeta>,
    groups: Seq<(u32, Vec<usize>)>,
    volume_num: u32,
    page_index: u32,
    source_volume_num: Option<u32>,
)
    requires
        groups.len() == volumes.len(),
        forall|h: int|
            0 <= h < groups.len() ==> (#[trigger] groups[h]).0 == volumes[h].volume_num && groups[h].1@.len()
                == volumes[h].pages@.len(),
    ensures
        ({
            let entry = PageEditEntry {
                source: PageEditSource::Original { page_index, source_volume_num },
                excluded: false,
            };
            let key = entry_key(volume_num, source_volume_num);
            let converted = scan_map_of(groups);
            match shown_page(volumes, volume_num, entry) {
                Some(page) => volume_for_key(volumes, key) matches Some(g) && converted.contains_key(key)
                    && page_index < converted[key].len() && converted[key] == groups[g].1@
                    && page == volumes[g].pages@[page_index as int],
                None => !(converted.contains_key(key) && page_index < converted[key].len()),
            }
        }),
{
    let key = entry_key(volume_num, source_volume_num);
    lemma_scan_map_lookup(volumes, groups, key);
}

} // verus!
