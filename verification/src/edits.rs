//! The scanned page layout shown to the user and the edits the page editor sends back.
use vstd::prelude::*;
use crate::paths::{file_name, file_name_of};
use crate::pipeline_plan::excluded_in;

verus! {

/// Metadata for one scanned page.
#[derive(Clone, Debug)]
pub struct PageMeta {
    pub volume_num: u32,
    pub page_index: u32,
    pub path: String,
    pub file_name: String,
}

/// One scanned group of pages (a chapter of a source volume).
#[derive(Clone, Debug)]
pub struct VolumeMeta {
    /// Sequential scan index, the key used to look pages up during conversion.
    pub volume_num: u32,
    /// The volume number parsed from the source folder names.
    pub source_volume_num: u32,
    pub pages: Vec<PageMeta>,
}

/// Where a page in the editor comes from.
#[derive(Clone, Debug)]
pub enum PageEditSource {
    /// A scanned page: `page_index` into the scan group `source_volume_num`
    /// (the enclosing edit's own volume when `None`).
    Original { page_index: u32, source_volume_num: Option<u32> },
    /// An image file the user added by hand.
    Custom { path: String },
}

/// One page entry of the page editor.
#[derive(Clone, Debug)]
pub struct PageEditEntry {
    pub source: PageEditSource,
    pub excluded: bool,
}

/// The page editor's output for one volume, pages in final display order.
#[derive(Clone, Debug)]
pub struct VolumeEdit {
    pub volume_num: u32,
    pub pages: Vec<PageEditEntry>,
}

impl PageEditSource {
    /// Whether the page is an image added by hand.
    pub fn is_custom(&self) -> (custom: bool)
        ensures
            custom == self is Custom,
    {
        match self {
            PageEditSource::Custom { .. } => true,
            PageEditSource::Original { .. } => false,
        }
    }
}

impl PageEditEntry {
    /// Entries the user added by hand and kept.
    pub open spec fn is_added(&self) -> bool {
        self.source is Custom && !self.excluded
    }
}

/// The editor's starting point: every scanned page of every group, in scan
/// order, none excluded.
pub open spec fn is_default_edit(volume: VolumeMeta, edit: VolumeEdit) -> bool {
    &&& edit.volume_num == volume.volume_num
    &&& edit.pages@.len() == volume.pages@.len()
    &&& forall|p: int| 0 <= p < edit.pages@.len() ==> {
        let entry = #[trigger] edit.pages@[p];
        &&& !entry.excluded
        &&& entry.source == PageEditSource::Original {
            page_index: volume.pages@[p].page_index,
            source_volume_num: Some(volume.pages@[p].volume_num),
        }
    }
}

fn default_volume_edit(volume: &VolumeMeta) -> (edit: VolumeEdit)
    ensures
        is_default_edit(*volume, edit),
{
    let mut pages: Vec<PageEditEntry> = Vec::new();
    let mut p: usize = 0;
    while p < volume.pages.len()
        invariant
            p <= volume.pages@.len(),
            pages@.len() == p,
            forall|q: int| 0 <= q < p ==> {
                let entry = #[trigger] pages@[q];
                &&& !entry.excluded
                &&& entry.source == PageEditSource::Original {
                    page_index: volume.pages@[q].page_index,
                    source_volume_num: Some(volume.pages@[q].volume_num),
                }
            },
        decreases volume.pages@.len() - p,
    {
        let page = &volume.pages[p];
        pages.push(PageEditEntry {
            source: PageEditSource::Original {
                page_index: page.page_index,
                source_volume_num: Some(page.volume_num),
            },
            excluded: false,
        });
        p = p + 1;
    }
    VolumeEdit { volume_num: volume.volume_num, pages }
}

/// One untouched edit per scanned group, keeping every page in scan order.
pub fn default_volume_edits(volumes: &Vec<VolumeMeta>) -> (edits: Vec<VolumeEdit>)
    ensures
        edits@.len() == volumes@.len(),
        forall|g: int| 0 <= g < volumes@.len() ==> is_default_edit(volumes@[g], #[trigger] edits@[g]),
{
    let mut edits: Vec<VolumeEdit> = Vec::new();
    let mut g: usize = 0;
    while g < volumes.len()
        invariant
            g <= volumes@.len(),
            edits@.len() == g,
            forall|h: int| 0 <= h < g ==> is_default_edit(volumes@[h], #[trigger] edits@[h]),
        decreases volumes@.len() - g,
    {
        edits.push(default_volume_edit(&volumes[g]));
        g = g + 1;
    }
    edits
}

/// The scan group an original entry refers to: the one it names, or the
/// volume of the edit it belongs to when it names none.
pub open spec fn entry_key(volume_num: u32, source_volume_num: Option<u32>) -> u32 {
    match source_volume_num {
        Some(n) => n,
        None => volume_num,
    }
}

/// Position of the scan group numbered `key` (by scan index); when several
/// carry the number, the last one, as a map collected from the list keeps it.
pub open spec fn volume_for_key(volumes: Seq<VolumeMeta>, key: u32) -> Option<int>
    decreases volumes.len(),
{
    if volumes.len() == 0 {
        None
    } else if volumes.last().volume_num == key {
        Some(volumes.len() - 1)
    } else {
        volume_for_key(volumes.drop_last(), key)
    }
}

/// The scanned page an editor entry of the edit for volume `volume_num`
/// shows: page `page_index` of the scan group it refers to, if both exist.
pub open spec fn shown_page(volumes: Seq<VolumeMeta>, volume_num: u32, entry: PageEditEntry) -> Option<PageMeta> {
    match entry.source {
        PageEditSource::Original { page_index, source_volume_num } => match volume_for_key(
            volumes,
            entry_key(volume_num, source_volume_num),
        ) {
            Some(v) => if page_index < volumes[v].pages@.len() {
                Some(volumes[v].pages@[page_index as int])
            } else {
                None
            },
            None => None,
        },
        PageEditSource::Custom { .. } => None,
    }
}

fn find_volume(volumes: &Vec<VolumeMeta>, key: u32) -> (found: Option<usize>)
    ensures
        match found {
            Some(v) => volume_for_key(volumes@, key) == Some(v as int) && v < volumes@.len(),
            None => volume_for_key(volumes@, key) is None,
        },
{
    let mut i: usize = volumes.len();
    proof {
        assert(volumes@.take(i as int) == volumes@);
    }
    while i > 0
        invariant
            i <= volumes@.len(),
            volume_for_key(volumes@, key) == volume_for_key(volumes@.take(i as int), key),
        decreases i,
    {
        proof {
            assert(volumes@.take(i as int).drop_last() == volumes@.take(i - 1));
        }
        if volumes[i - 1].volume_num == key {
            return Some(i - 1);
        }
        i = i - 1;
    }
    None
}

fn shown_page_exec(volumes: &Vec<VolumeMeta>, volume_num: u32, page_index: u32, wanted: Option<u32>) -> (found: Option<&PageMeta>)
    ensures
        match shown_page(
            volumes@,
            volume_num,
            PageEditEntry { source: PageEditSource::Original { page_index, source_volume_num: wanted }, excluded: false },
        ) {
            Some(page) => found is Some && *found->0 == page,
            None => found is None,
        },
{
    let key = match wanted {
        Some(n) => n,
        None => volume_num,
    };
    match find_volume(volumes, key) {
        None => None,
        Some(v) => {
            let pages = &volumes[v].pages;
            if (page_index as usize) < pages.len() {
                Some(&pages[page_index as usize])
            } else {
                None
            }
        },
    }
}

/// The image path an entry of the edit for volume `volume_num` shows: a
/// custom entry's own path, or the path of the scanned page it refers to.
pub fn page_path(volumes: &Vec<VolumeMeta>, volume_num: u32, entry: &PageEditEntry) -> (path: Option<String>)
    ensures
        match entry.source {
            PageEditSource::Custom { path: custom } => path == Some(custom),
            PageEditSource::Original { .. } => match shown_page(volumes@, volume_num, *entry) {
                Some(page) => path is Some && path->0@ == page.path@,
                None => path is None,
            },
        },
{
    match &entry.source {
        PageEditSource::Custom { path } => Some(path.clone()),
        PageEditSource::Original { page_index, source_volume_num } => {
            match shown_page_exec(volumes, volume_num, *page_index, *source_volume_num) {
                Some(page) => Some(page.path.clone()),
                None => None,
            }
        },
    }
}

/// The file name an entry of the edit for volume `volume_num` shows: a
/// custom entry's final path component, or the file name of the scanned page
/// it refers to.
pub fn page_file_name(volumes: &Vec<VolumeMeta>, volume_num: u32, entry: &PageEditEntry) -> (name: Option<String>)
    ensures
        match entry.source {
            PageEditSource::Custom { path: custom } => match file_name(custom@) {
                Some(n) => name is Some && name->0@ == n,
                None => name is None,
            },
            PageEditSource::Original { .. } => match shown_page(volumes@, volume_num, *entry) {
                Some(page) => name is Some && name->0@ == page.file_name@,
                None => name is None,
            },
        },
{
    match &entry.source {
        PageEditSource::Custom { path } => file_name_of(path.as_str()),
        PageEditSource::Original { page_index, source_volume_num } => {
            match shown_page_exec(volumes, volume_num, *page_index, *source_volume_num) {
                Some(page) => Some(page.file_name.clone()),
                None => None,
            }
        },
    }
}

/// Number of entries of an edit that are not excluded.
pub open spec fn included_in(pages: Seq<PageEditEntry>) -> nat
    decreases pages.len(),
{
    if pages.len() == 0 {
        0
    } else {
        included_in(pages.drop_last()) + if pages.last().excluded { 0nat } else { 1nat }
    }
}

/// Every entry that is not excluded counts, original and hand-added alike:
/// the included entries are those the kept-entry filter keeps, and together
/// with the excluded ones they make up the whole edit, as the pipeline plan
/// counts them.
pub proof fn law_included_entries(pages: Seq<PageEditEntry>)
    ensures
        included_in(pages) == pages.filter(|e: PageEditEntry| !e.excluded).len(),
        included_in(pages) + excluded_in(pages) == pages.len(),
    decreases pages.len(),
{
    reveal(Seq::filter);
    if pages.len() > 0 {
        law_included_entries(pages.drop_last());
    }
}

/// How many pages of a volume edit are included.
pub fn included_count(edit: &VolumeEdit) -> (count: usize)
    ensures
        count == included_in(edit.pages@),
        count == edit.pages@.len() - excluded_in(edit.pages@),
{
    let mut count: usize = 0;
    let mut i: usize = 0;
    while i < edit.pages.len()
        invariant
            i <= edit.pages@.len(),
            count == included_in(edit.pages@.take(i as int)),
            count <= i,
        decreases edit.pages@.len() - i,
    {
        proof {
            assert(edit.pages@.take(i + 1).drop_last() == edit.pages@.take(i as int));
        }
        if !edit.pages[i].excluded {
            count = count + 1;
        }
        i = i + 1;
    }
    proof {
        assert(edit.pages@.take(i as int) == edit.pages@);
        law_included_entries(edit.pages@);
    }
    count
}

/// `after` is `before` with the exclusion of page `page` of volume `volume`
/// flipped, or unchanged when there is no such page.
pub open spec fn is_toggled(before: Seq<VolumeEdit>, after: Seq<VolumeEdit>, volume: int, page: int) -> bool {
    if 0 <= volume < before.len() && 0 <= page < before[volume].pages@.len() {
        let entry = before[volume].pages@[page];
        &&& after.len() == before.len()
        &&& forall|w: int| 0 <= w < before.len() && w != volume ==> #[trigger] after[w] == before[w]
        &&& after[volume].volume_num == before[volume].volume_num
        &&& after[volume].pages@ == before[volume].pages@.update(
            page,
            PageEditEntry { source: entry.source, excluded: !entry.excluded },
        )
    } else {
        after == before
    }
}

/// Flips whether page `page` of volume `volume` is excluded; nothing
/// changes when there is no such page.
pub fn toggle_excluded(edits: &mut Vec<VolumeEdit>, volume: usize, page: usize)
    ensures
        is_toggled(old(edits)@, final(edits)@, volume as int, page as int),
{
    if volume < edits.len() && page < edits[volume].pages.len() {
        let mut edit = edits.remove(volume);
        let entry = edit.pages.remove(page);
        let flipped = PageEditEntry { source: entry.source, excluded: !entry.excluded };
        edit.pages.insert(page, flipped);
        edits.insert(volume, edit);
        proof {
            assert(edits@[volume as int].pages@ =~= old(edits)@[volume as int].pages@.update(
                page as int,
                PageEditEntry { source: entry.source, excluded: !entry.excluded },
            ));
        }
    }
}

/// Excluding a page is undone by toggling it again: two toggles of the same
/// page leave every volume with the pages it had.
pub proof fn law_toggle_twice_restores(a: Seq<VolumeEdit>, b: Seq<VolumeEdit>, c: Seq<VolumeEdit>, volume: int, page: int)
    requires
        is_toggled(a, b, volume, page),
        is_toggled(b, c, volume, page),
    ensures
        c.len() == a.len(),
        forall|w: int| 0 <= w < a.len() ==> (#[trigger] c[w]).volume_num == a[w].volume_num && c[w].pages@ == a[w].pages@,
{
    if 0 <= volume < a.len() && 0 <= page < a[volume].pages@.len() {
        assert(c[volume].pages@ =~= a[volume].pages@);
        assert forall|w: int| 0 <= w < a.len() implies (#[trigger] c[w]).volume_num == a[w].volume_num && c[w].pages@
            == a[w].pages@ by {
            if w != volume {
                assert(c[w] == b[w]);
                assert(b[w] == a[w]);
            }
        }
    }
}

/// `after` is `before` with a kept page at `path` appended to volume
/// `volume`, or unchanged when there is no such volume.
pub open spec fn is_page_added(before: Seq<VolumeEdit>, after: Seq<VolumeEdit>, volume: int, path: Seq<char>) -> bool {
    if 0 <= volume < before.len() {
        &&& after.len() == before.len()
        &&& forall|w: int| 0 <= w < before.len() && w != volume ==> #[trigger] after[w] == before[w]
        &&& after[volume].volume_num == before[volume].volume_num
        &&& after[volume].pages@.len() == before[volume].pages@.len() + 1
        &&& after[volume].pages@.drop_last() == before[volume].pages@
        &&& after[volume].pages@.last().source matches PageEditSource::Custom { path: p } && p@ == path
        &&& !after[volume].pages@.last().excluded
    } else {
        after == before
    }
}

/// Appends a page added by hand to volume `volume`; nothing changes when
/// there is no such volume.
pub fn add_custom_page(edits: &mut Vec<VolumeEdit>, volume: usize, path: String)
    ensures
        is_page_added(old(edits)@, final(edits)@, volume as int, path@),
{
    if volume < edits.len() {
        let mut edit = edits.remove(volume);
        edit.pages.push(PageEditEntry { source: PageEditSource::Custom { path }, excluded: false });
        edits.insert(volume, edit);
        proof {
            assert(edits@[volume as int].pages@.drop_last() =~= old(edits)@[volume as int].pages@);
        }
    }
}

/// Whether an entry is counted as included.
spec fn kept(entry: PageEditEntry) -> int {
    if entry.excluded { 0 } else { 1 }
}

proof fn lemma_included_update(pages: Seq<PageEditEntry>, p: int, entry: PageEditEntry)
    requires
        0 <= p < pages.len(),
    ensures
        included_in(pages.update(p, entry)) == included_in(pages) - kept(pages[p]) + kept(entry),
    decreases pages.len(),
{
    let updated = pages.update(p, entry);
    if p == pages.len() - 1 {
        assert(updated.drop_last() =~= pages.drop_last());
    } else {
        lemma_included_update(pages.drop_last(), p, entry);
        assert(updated.drop_last() =~= pages.drop_last().update(p, entry));
    }
}

/// The included count follows the editor: excluding a kept page lowers it
/// by one, bringing an excluded page back raises it by one, and adding a
/// page by hand raises it by one.
pub proof fn law_editor_changes_included_count(
    before: Seq<VolumeEdit>,
    toggled: Seq<VolumeEdit>,
    added: Seq<VolumeEdit>,
    volume: int,
    page: int,
    path: Seq<char>,
)
    requires
        0 <= volume < before.len(),
        is_toggled(before, toggled, volume, page),
        is_page_added(before, added, volume, path),
    ensures
        0 <= page < before[volume].pages@.len() && !before[volume].pages@[page].excluded ==> included_in(
            toggled[volume].pages@,
        ) + 1 == included_in(before[volume].pages@),
        0 <= page < before[volume].pages@.len() && before[volume].pages@[page].excluded ==> included_in(
            toggled[volume].pages@,
        ) == included_in(before[volume].pages@) + 1,
        included_in(added[volume].pages@) == included_in(before[volume].pages@) + 1,
{
    if 0 <= page < before[volume].pages@.len() {
        let entry = before[volume].pages@[page];
        lemma_included_update(
            before[volume].pages@,
            page,
            PageEditEntry { source: entry.source, excluded: !entry.excluded },
        );
    }
}

} // verus!
