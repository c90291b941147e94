//! Grouping scanned images into chapter groups in reading order.
use vstd::prelude::*;
use crate::edits::{PageMeta, VolumeMeta};
use crate::paths::{file_name, file_name_of};

verus! {

/// One image found while scanning a source, reduced to what the grouping reads.
///
/// `chapter_key` and `page_key` are order keys: they compare as the parsed
/// chapter number (missing = 0, NaN after every number, `-0` equal to `0`) and
/// the parsed page number (IEEE total order) compare.
#[derive(Clone, Debug)]
pub struct ScannedImage {
    pub path: String,
    pub volume: Option<u32>,
    pub chapter_key: u64,
    pub page_key: u64,
    pub is_cover: bool,
}

/// The scan result: the page metadata shown to the user, and for each scan
/// group its sequential number and the indices of its images, in page order.
#[derive(Clone, Debug)]
pub struct ScanLayout {
    pub volumes: Vec<VolumeMeta>,
    pub groups: Vec<(u32, Vec<usize>)>,
}

/// The volume an image is filed under: its parsed volume, at least 1, or 1 when none was parsed.
pub open spec fn source_volume(img: ScannedImage) -> u32 {
    match img.volume {
        Some(v) => if v == 0 { 1 } else { v },
        None => 1,
    }
}

/// Whether two images belong to the same (volume, chapter) group.
pub open spec fn same_chapter(a: ScannedImage, b: ScannedImage) -> bool {
    source_volume(a) == source_volume(b) && a.chapter_key == b.chapter_key
}

/// Whether `a`'s group comes before `b`'s: by volume, then by chapter.
pub open spec fn chapter_before(a: ScannedImage, b: ScannedImage) -> bool {
    ||| source_volume(a) < source_volume(b)
    ||| source_volume(a) == source_volume(b) && a.chapter_key < b.chapter_key
}

/// Order of pages inside a group: covers first, then by page key, and images
/// that tie keep their scan order (`i < j`).
pub open spec fn page_before(a: ScannedImage, i: int, b: ScannedImage, j: int) -> bool {
    ||| a.is_cover && !b.is_cover
    ||| a.is_cover == b.is_cover && a.page_key < b.page_key
    ||| a.is_cover == b.is_cover && a.page_key == b.page_key && i < j
}

/// Reading order over all scanned images (by index).
pub open spec fn scan_before(images: Seq<ScannedImage>, i: int, j: int) -> bool {
    ||| chapter_before(images[i], images[j])
    ||| same_chapter(images[i], images[j]) && page_before(images[i], i, images[j], j)
}

/// Whether `x` occurs in `order`.
pub open spec fn lists(order: Seq<usize>, x: int) -> bool {
    exists|p: int| 0 <= p < order.len() && order[p] == x
}

/// `order` lists every image index exactly once, in reading order.
pub open spec fn is_scan_order(images: Seq<ScannedImage>, order: Seq<usize>) -> bool {
    &&& order.len() == images.len()
    &&& forall|p: int| 0 <= p < order.len() ==> order[p] < images.len()
    &&& forall|p: int, q: int|
        0 <= p < q < order.len() ==> scan_before(images, #[trigger] order[p] as int, #[trigger] order[q] as int)
    &&& forall|x: int| 0 <= x < images.len() ==> #[trigger] lists(order, x)
}

/// The groups laid end to end.
pub open spec fn joined(groups: Seq<Seq<usize>>) -> Seq<usize>
    decreases groups.len(),
{
    if groups.len() == 0 {
        Seq::empty()
    } else {
        joined(groups.drop_last()) + groups.last()
    }
}

/// `groups` cut the reading order into maximal runs of one (volume, chapter).
pub open spec fn is_scan_grouping(images: Seq<ScannedImage>, groups: Seq<Seq<usize>>) -> bool {
    &&& is_scan_order(images, joined(groups))
    &&& forall|g: int| 0 <= g < groups.len() ==> #[trigger] groups[g].len() > 0
    &&& forall|g: int, p: int|
        0 <= g < groups.len() && 0 <= p < groups[g].len() ==> same_chapter(
            images[#[trigger] groups[g][p] as int],
            images[groups[g][0] as int],
        )
    &&& forall|g: int|
        0 <= g < groups.len() - 1 ==> !same_chapter(
            images[#[trigger] groups[g][0] as int],
            images[groups[g + 1][0] as int],
        )
}

/// The file name shown for a page: the path's final component, or empty.
pub open spec fn shown_file_name(path: Seq<char>) -> Seq<char> {
    match file_name(path) {
        Some(n) => n,
        None => Seq::empty(),
    }
}

/// Page metadata of the scan group numbered `scan_num` with image indices `members`.
pub open spec fn volume_meta_matches(
    meta: VolumeMeta,
    images: Seq<ScannedImage>,
    scan_num: int,
    members: Seq<usize>,
) -> bool {
    &&& meta.volume_num == scan_num
    &&& meta.source_volume_num == source_volume(images[members[0] as int])
    &&& meta.pages@.len() == members.len()
    &&& forall|p: int| 0 <= p < members.len() ==> {
        let page = #[trigger] meta.pages@[p];
        &&& page.volume_num == scan_num
        &&& page.page_index == p
        &&& page.path@ == images[members[p] as int].path@
        &&& page.file_name@ == shown_file_name(images[members[p] as int].path@)
    }
}

/// The member lists of a layout's groups.
pub open spec fn group_members(groups: Seq<(u32, Vec<usize>)>) -> Seq<Seq<usize>> {
    groups.map_values(|g: (u32, Vec<usize>)| g.1@)
}

/// The complete contract of a scan layout over `images`.
pub open spec fn is_scan_layout(images: Seq<ScannedImage>, layout: ScanLayout) -> bool {
    let gs = group_members(layout.groups@);
    &&& is_scan_grouping(images, gs)
    &&& layout.volumes@.len() == layout.groups@.len()
    &&& forall|g: int| 0 <= g < layout.groups@.len() ==> (#[trigger] layout.groups@[g]).0 == g + 1
    &&& forall|g: int|
        0 <= g < layout.volumes@.len() ==> volume_meta_matches(
            #[trigger] layout.volumes@[g],
            images,
            g + 1,
            gs[g],
        )
}

proof fn lemma_scan_before_strict(images: Seq<ScannedImage>, i: int, j: int, k: int)
    ensures
        !scan_before(images, i, i),
        scan_before(images, i, j) ==> !scan_before(images, j, i),
        i != j ==> scan_before(images, i, j) || scan_before(images, j, i),
        scan_before(images, i, j) && scan_before(images, j, k) ==> scan_before(images, i, k),
{
}

fn chapter_key_of(img: &ScannedImage) -> (key: (u32, u64))
    ensures
        key == (source_volume(*img), img.chapter_key),
{
    let volume = match img.volume {
        Some(v) => if v == 0 { 1 } else { v },
        None => 1,
    };
    (volume, img.chapter_key)
}

fn same_chapter_exec(images: &Vec<ScannedImage>, i: usize, j: usize) -> (same: bool)
    requires
        i < images@.len(),
        j < images@.len(),
    ensures
        same == same_chapter(images@[i as int], images@[j as int]),
{
    let a = chapter_key_of(&images[i]);
    let b = chapter_key_of(&images[j]);
    a.0 == b.0 && a.1 == b.1
}

fn scan_before_exec(images: &Vec<ScannedImage>, i: usize, j: usize) -> (before: bool)
    requires
        i < images@.len(),
        j < images@.len(),
    ensures
        before == scan_before(images@, i as int, j as int),
{
    let a = chapter_key_of(&images[i]);
    let b = chapter_key_of(&images[j]);
    if a.0 != b.0 {
        return a.0 < b.0;
    }
    if a.1 != b.1 {
        return a.1 < b.1;
    }
    let ca = images[i].is_cover;
    let cb = images[j].is_cover;
    if ca != cb {
        return ca;
    }
    let pa = images[i].page_key;
    let pb = images[j].page_key;
    if pa != pb {
        return pa < pb;
    }
    i < j
}

/// Sorts all image indices into reading order (insertion sort).
fn scan_order(images: &Vec<ScannedImage>) -> (order: Vec<usize>)
    ensures
        is_scan_order(images@, order@),
{
    let n = images.len();
    let mut order: Vec<usize> = Vec::new();
    let mut i: usize = 0;
    while i < n
        invariant
            n == images@.len(),
            i <= n,
            order@.len() == i,
            forall|p: int| 0 <= p < i ==> order@[p] < i,
            forall|p: int, q: int|
                0 <= p < q < i ==> scan_before(images@, #[trigger] order@[p] as int, #[trigger] order@[q] as int),
            forall|x: int| 0 <= x < i ==> #[trigger] lists(order@, x),
        decreases n - i,
    {
        let mut j: usize = 0;
        while j < order.len() && scan_before_exec(images, order[j], i)
            invariant
                n == images@.len(),
                i < n,
                order@.len() == i,
                forall|p: int| 0 <= p < i ==> order@[p] < i,
                j <= order@.len(),
                forall|p: int| 0 <= p < j ==> scan_before(images@, #[trigger] order@[p] as int, i as int),
            decreases order@.len() - j,
        {
            j = j + 1;
        }
        let ghost old_order = order@;
        proof {
            assert forall|q: int| j <= q < i implies scan_before(images@, i as int, #[trigger] old_order[q] as int) by {
                lemma_scan_before_strict(images@, old_order[j as int] as int, i as int, old_order[q] as int);
                lemma_scan_before_strict(images@, i as int, old_order[j as int] as int, old_order[q] as int);
            }
        }
        order.insert(j, i);
        proof {
            let new_order = order@;
            assert(new_order == old_order.insert(j as int, i));
            assert forall|p: int, q: int|
                0 <= p < q < i + 1 implies scan_before(images@, #[trigger] new_order[p] as int, #[trigger] new_order[q] as int) by {
                if q < j {
                    assert(new_order[p] == old_order[p] && new_order[q] == old_order[q]);
                } else if q == j {
                    assert(new_order[p] == old_order[p]);
                } else if p < j {
                    assert(new_order[p] == old_order[p] && new_order[q] == old_order[q - 1]);
                    lemma_scan_before_strict(images@, old_order[p] as int, i as int, old_order[q - 1] as int);
                } else if p == j {
                    assert(new_order[q] == old_order[q - 1]);
                } else {
                    assert(new_order[p] == old_order[p - 1] && new_order[q] == old_order[q - 1]);
                }
            }
            assert forall|x: int| 0 <= x < i + 1 implies #[trigger] lists(new_order, x) by {
                if x == i {
                    assert(new_order[j as int] == x);
                } else {
                    assert(lists(old_order, x));
                    let p0 = choose|p: int| 0 <= p < i && old_order[p] == x;
                    if p0 < j {
                        assert(new_order[p0] == x);
                    } else {
                        assert(new_order[p0 + 1] == x);
                    }
                }
            }
        }
        i = i + 1;
    }
    order
}

fn page_meta(images: &Vec<ScannedImage>, scan_num: u32, page_index: u32, image: usize) -> (page: PageMeta)
    requires
        image < images@.len(),
    ensures
        page.volume_num == scan_num,
        page.page_index == page_index,
        page.path@ == images@[image as int].path@,
        page.file_name@ == shown_file_name(images@[image as int].path@),
{
    let path = images[image].path.clone();
    let file_name = match file_name_of(path.as_str()) {
        Some(n) => n,
        None => String::new(),
    };
    PageMeta { volume_num: scan_num, page_index, path, file_name }
}

fn volume_meta(images: &Vec<ScannedImage>, scan_num: u32, members: &Vec<usize>) -> (meta: VolumeMeta)
    requires
        members@.len() > 0,
        members@.len() <= u32::MAX,
        forall|p: int| 0 <= p < members@.len() ==> members@[p] < images@.len(),
    ensures
        volume_meta_matches(meta, images@, scan_num as int, members@),
{
    let mut pages: Vec<PageMeta> = Vec::new();
    let mut p: usize = 0;
    while p < members.len()
        invariant
            p <= members@.len() <= u32::MAX,
            forall|q: int| 0 <= q < members@.len() ==> members@[q] < images@.len(),
            pages@.len() == p,
            forall|q: int| 0 <= q < p ==> {
                let page = #[trigger] pages@[q];
                &&& page.volume_num == scan_num
                &&& page.page_index == q
                &&& page.path@ == images@[members@[q] as int].path@
                &&& page.file_name@ == shown_file_name(images@[members@[q] as int].path@)
            },
        decreases members@.len() - p,
    {
        let page = page_meta(images, scan_num, p as u32, members[p]);
        pages.push(page);
        p = p + 1;
    }
    let first = members[0];
    let key = chapter_key_of(&images[first]);
    VolumeMeta { volume_num: scan_num, source_volume_num: key.0, pages }
}

proof fn lemma_joined_push(groups: Seq<Seq<usize>>, g: Seq<usize>)
    ensures
        joined(groups.push(g)) == joined(groups) + g,
{
    assert(groups.push(g).drop_last() =~= groups);
}

/// Groups scanned images by (volume, chapter) and orders each group's pages.
///
/// Groups come in ascending (volume, chapter) order and are numbered from 1;
/// inside a group covers come first, then pages by page key, ties in scan order.
pub fn scan_layout(images: &Vec<ScannedImage>) -> (layout: ScanLayout)
    requires
        images@.len() < u32::MAX,
    ensures
        is_scan_layout(images@, layout),
{
    let order = scan_order(images);
    let n = order.len();
    let mut volumes: Vec<VolumeMeta> = Vec::new();
    let mut groups: Vec<(u32, Vec<usize>)> = Vec::new();
    let mut k: usize = 0;
    proof {
        assert(order@.take(0) =~= joined(group_members(groups@)));
    }
    while k < n
        invariant
            n == order@.len(),
            n == images@.len(),
            n < u32::MAX,
            is_scan_order(images@, order@),
            k <= n,
            groups@.len() <= k,
            volumes@.len() == groups@.len(),
            joined(group_members(groups@)) == order@.take(k as int),
            forall|g: int| 0 <= g < groups@.len() ==> (#[trigger] groups@[g]).0 == g + 1,
            forall|g: int| 0 <= g < groups@.len() ==> #[trigger] group_members(groups@)[g].len() > 0,
            forall|g: int, p: int|
                0 <= g < groups@.len() && 0 <= p < group_members(groups@)[g].len() ==> same_chapter(
                    images@[#[trigger] group_members(groups@)[g][p] as int],
                    images@[group_members(groups@)[g][0] as int],
                ),
            forall|g: int|
                0 <= g < groups@.len() - 1 ==> !same_chapter(
                    images@[#[trigger] group_members(groups@)[g][0] as int],
                    images@[group_members(groups@)[g + 1][0] as int],
                ),
            groups@.len() > 0 && k < n ==> !same_chapter(
                images@[order@[k as int] as int],
                images@[group_members(groups@).last()[0] as int],
            ),
            forall|g: int|
                0 <= g < volumes@.len() ==> volume_meta_matches(
                    #[trigger] volumes@[g],
                    images@,
                    g + 1,
                    group_members(groups@)[g],
                ),
        decreases n - k,
    {
        let first = order[k];
        let start = k;
        let mut members: Vec<usize> = Vec::new();
        members.push(first);
        k = k + 1;
        proof {
            assert(members@ =~= order@.subrange(start as int, k as int));
        }
        while k < n && same_chapter_exec(images, order[k], first)
            invariant
                n == order@.len(),
                n == images@.len(),
                is_scan_order(images@, order@),
                start < k <= n,
                first == order@[start as int],
                members@ == order@.subrange(start as int, k as int),
                forall|p: int| 0 <= p < members@.len() ==> same_chapter(
                    images@[#[trigger] members@[p] as int],
                    images@[first as int],
                ),
            decreases n - k,
        {
            members.push(order[k]);
            k = k + 1;
            proof {
                assert(members@ =~= order@.subrange(start as int, k as int));
            }
        }
        proof {
            assert forall|p: int| 0 <= p < members@.len() implies members@[p] < images@.len() by {
                assert(members@[p] == order@[start + p]);
            }
        }
        let scan_num = (groups.len() + 1) as u32;
        let meta = volume_meta(images, scan_num, &members);
        let ghost old_groups = groups@;
        let ghost old_volumes = volumes@;
        volumes.push(meta);
        groups.push((scan_num, members));
        proof {
            let gm = group_members(groups@);
            let old_gm = group_members(old_groups);
            assert(gm =~= old_gm.push(members@));
            lemma_joined_push(old_gm, members@);
            assert(order@.take(start as int) + order@.subrange(start as int, k as int) =~= order@.take(k as int));
            assert(gm[gm.len() - 1] == members@);
            assert(members@[0] == first);
            assert forall|g: int| 0 <= g < volumes@.len() implies volume_meta_matches(
                #[trigger] volumes@[g], images@, g + 1, group_members(groups@)[g]) by {
                if g < old_volumes.len() {
                    assert(volumes@[g] == old_volumes[g]);
                    assert(gm[g] == old_gm[g]);
                }
            }
            assert forall|g: int| 0 <= g < groups@.len() implies (#[trigger] groups@[g]).0 == g + 1 by {
                if g < old_groups.len() {
                    assert(groups@[g] == old_groups[g]);
                }
            }
            assert forall|g: int| 0 <= g < groups@.len() - 1 implies !same_chapter(
                images@[#[trigger] gm[g][0] as int],
                images@[gm[g + 1][0] as int],
            ) by {
                if g < old_gm.len() - 1 {
                    assert(gm[g] == old_gm[g] && gm[g + 1] == old_gm[g + 1]);
                } else {
                    assert(gm[g] == old_gm.last());
                    assert(order@[start as int] == first);
                }
            }
            assert forall|g: int, p: int|
                0 <= g < groups@.len() && 0 <= p < gm[g].len() implies same_chapter(
                    images@[#[trigger] gm[g][p] as int],
                    images@[gm[g][0] as int],
                ) by {
                if g < old_gm.len() {
                    assert(gm[g] == old_gm[g]);
                }
            }
        }
    }
    proof {
        assert(order@.take(n as int) =~= order@);
    }
    ScanLayout { volumes, groups }
}

} // verus!
