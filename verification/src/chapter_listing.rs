//! One page of a comic's chapter list: which query fills it, how the
//! chapters are grouped under their volumes, and the paging numbers.

use vstd::prelude::*;
use crate::chapter_archive::ChapterArchiveWithVolume;
use crate::metadata::{to_lowercase, unicode_lowercase};
use crate::text::{chars_of, concat, i64_to_string, signed_decimal, str_eq};

verus! {

/// Order of a chapter (or volume) list.
#[derive(Debug, Clone, Copy, PartialEq, Eq, Structural)]
pub enum ChapterSortCriteria {
    NumberAsc,
    NumberDesc,
    ModifiedAsc,
    ModifiedDesc,
}

/// Order of the library on the home screen.
#[derive(Debug, Clone, Copy, PartialEq, Eq, Structural)]
pub enum SortCriteria {
    TitleAsc,
    TitleDesc,
    ChapterCountAsc,
    ChapterCountDesc,
    LastUpdatedAsc,
    LastUpdatedDesc,
}

/// The SQL direction of a library order.
pub fn sort_direction(criteria: SortCriteria) -> (r: &'static str)
    ensures
        r@ == (if criteria is TitleAsc || criteria is ChapterCountAsc || criteria is LastUpdatedAsc {
            "ASC"@
        } else {
            "DESC"@
        }),
{
    match criteria {
        SortCriteria::TitleAsc | SortCriteria::ChapterCountAsc | SortCriteria::LastUpdatedAsc => "ASC",
        _ => "DESC",
    }
}

/// `parts` with `sep` between each two of them.
pub open spec fn joined(parts: Seq<Seq<char>>, sep: Seq<char>) -> Seq<char>
    decreases parts.len(),
{
    if parts.len() == 0 {
        Seq::empty()
    } else if parts.len() == 1 {
        parts[0]
    } else {
        joined(parts.drop_last(), sep) + sep + parts.last()
    }
}

/// Joins `parts` with `sep` between each two of them.
fn join_strings(parts: &Vec<String>, sep: &str) -> (r: String)
    ensures
        r@ == joined(parts@.map_values(|p: String| p@), sep@),
{
    let ghost all = parts@.map_values(|p: String| p@);
    let mut out = String::new();
    let mut i: usize = 0;
    while i < parts.len()
        invariant
            i <= parts.len(),
            all == parts@.map_values(|p: String| p@),
            out@ == joined(all.take(i as int), sep@),
        decreases parts.len() - i,
    {
        assert(all[i as int] == parts@[i as int]@);
        if i == 0 {
            out = parts[0].clone();
            assert(all.take(1) =~= seq![all[0]]);
        } else {
            let with_sep = concat(out.as_str(), sep);
            out = concat(with_sep.as_str(), parts[i].as_str());
            let ghost t = all.take(i + 1);
            assert(t.drop_last() =~= all.take(i as int));
            assert(t.last() == all[i as int]);
            assert(joined(t, sep@) == joined(t.drop_last(), sep@) + sep@ + t.last());
        }
        i += 1;
    }
    assert(all.take(parts.len() as int) =~= all);
    out
}

/// The filters of the library query: hidden comics left out unless shown,
/// and the metadata source asked for (`no_metadata`: comics without one;
/// any other non-empty name: that source, compared in lower case).
pub open spec fn library_filters(show_hidden: bool, metadata_source: Option<Seq<char>>) -> Seq<Seq<char>> {
    let hidden: Seq<Seq<char>> = if show_hidden {
        Seq::empty()
    } else {
        seq!["d.hidden = 0"@]
    };
    let by_source: Seq<Seq<char>> = match metadata_source {
        Some(s) => if s == "no_metadata"@ {
            seq!["v.active_source IS NULL"@]
        } else if s.len() > 0 {
            seq!["LOWER(v.active_source) = '"@ + unicode_lowercase(s) + "'"@]
        } else {
            Seq::empty()
        },
        None => Seq::empty(),
    };
    hidden + by_source
}

/// `WHERE` and the filters joined by `AND`, or nothing without filters.
pub open spec fn where_clause(filters: Seq<Seq<char>>) -> Seq<char> {
    if filters.len() == 0 {
        Seq::empty()
    } else {
        "WHERE "@ + joined(filters, " AND "@)
    }
}

/// The query listing the library in the order `criteria`, selecting
/// `columns` of the summary view `table` (as `v`) joined with the comic
/// folders (as `d`).
pub open spec fn library_sql(
    criteria: SortCriteria,
    show_hidden: bool,
    metadata_source: Option<Seq<char>>,
    table: Seq<char>,
    columns: Seq<Seq<char>>,
) -> Seq<char> {
    let cols = joined(columns.map_values(|c: Seq<char>| "v."@ + c), ", "@);
    let w = where_clause(library_filters(show_hidden, metadata_source));
    let dir = if criteria is TitleAsc || criteria is ChapterCountAsc || criteria is LastUpdatedAsc {
        "ASC"@
    } else {
        "DESC"@
    };
    let head = "SELECT "@ + cols + " FROM "@ + table + " v JOIN comic_directory d ON v.directory_fk = d.id "@;
    match criteria {
        SortCriteria::TitleAsc | SortCriteria::TitleDesc => head + w
            + " ORDER BY COALESCE(v.metadata_title, v.folder_name) "@ + dir,
        SortCriteria::ChapterCountAsc | SortCriteria::ChapterCountDesc => head
            + "LEFT JOIN (SELECT comic_directory_fk, COUNT(*) as chapter_count FROM chapter_archive GROUP BY comic_directory_fk) c ON v.directory_fk = c.comic_directory_fk "@
            + w + " ORDER BY COALESCE(c.chapter_count, 0) "@ + dir,
        SortCriteria::LastUpdatedAsc | SortCriteria::LastUpdatedDesc => head + w
            + " ORDER BY d.last_modified "@ + dir,
    }
}

/// The filters of the library query, as text.
fn library_filter_list(show_hidden: bool, metadata_source: Option<&str>) -> (r: Vec<String>)
    ensures
        r@.map_values(|p: String| p@) == library_filters(
            show_hidden,
            match metadata_source {
                Some(s) => Some(s@),
                None => None,
            },
        ),
{
    let mut filters: Vec<String> = Vec::new();
    if !show_hidden {
        filters.push("d.hidden = 0".to_string());
    }
    let ghost hidden = filters@.map_values(|p: String| p@);
    match metadata_source {
        Some(source) => {
            if str_eq(source, "no_metadata") {
                filters.push("v.active_source IS NULL".to_string());
            } else if chars_of(source).len() > 0 {
                let lowered = to_lowercase(source);
                let open = concat("LOWER(v.active_source) = '", lowered.as_str());
                filters.push(concat(open.as_str(), "'"));
            }
        },
        None => {},
    }
    assert(filters@.map_values(|p: String| p@) =~= library_filters(
        show_hidden,
        match metadata_source {
            Some(s) => Some(s@),
            None => None,
        },
    ));
    filters
}

/// The SQL listing the library on the home screen: the summary view
/// `table` with its `columns`, filtered by visibility and metadata source,
/// in the order `criteria`.
pub fn sorted_library_query(
    criteria: SortCriteria,
    show_hidden: bool,
    metadata_source: Option<&str>,
    table: &str,
    columns: &Vec<String>,
) -> (r: String)
    ensures
        r@ == library_sql(
            criteria,
            show_hidden,
            match metadata_source {
                Some(s) => Some(s@),
                None => None,
            },
            table@,
            columns@.map_values(|c: String| c@),
        ),
{
    let mut prefixed: Vec<String> = Vec::new();
    let mut i: usize = 0;
    while i < columns.len()
        invariant
            i <= columns.len(),
            prefixed@.map_values(|p: String| p@) == columns@.take(i as int).map_values(|c: String| "v."@ + c@),
        decreases columns.len() - i,
    {
        let ghost before = prefixed@;
        let item = concat("v.", columns[i].as_str());
        prefixed.push(item);
        proof {
            assert(before.map_values(|p: String| p@).len() == before.len());
            assert(columns@.take(i as int).map_values(|c: String| "v."@ + c@).len() == i);
            assert(before.len() == i);
            assert(prefixed@ == before.push(item));
            let ghost want = columns@.take(i + 1).map_values(|c: String| "v."@ + c@);
            let ghost got = prefixed@.map_values(|p: String| p@);
            assert forall|k: int| 0 <= k < i + 1 implies #[trigger] got[k] == want[k] by {
                assert(got[k] == prefixed@[k]@);
                assert(want[k] == "v."@ + columns@[k]@);
                if k < i {
                    assert(prefixed@[k] == before[k]);
                    assert(before.map_values(|p: String| p@)[k] == columns@.take(i as int).map_values(|c: String| "v."@ + c@)[k]);
                }
            }
            assert(got =~= want);
        }
        i += 1;
    }
    assert(columns@.take(columns.len() as int) =~= columns@);
    assert(columns@.map_values(|c: String| "v."@ + c@) =~= columns@.map_values(|c: String| c@).map_values(
        |c: Seq<char>| "v."@ + c,
    ));
    let cols = join_strings(&prefixed, ", ");
    let filters = library_filter_list(show_hidden, metadata_source);
    let where_text = if filters.len() == 0 {
        String::new()
    } else {
        let body = join_strings(&filters, " AND ");
        concat("WHERE ", body.as_str())
    };
    let dir = sort_direction(criteria);
    let a = concat("SELECT ", cols.as_str());
    let b = concat(a.as_str(), " FROM ");
    let c = concat(b.as_str(), table);
    let head = concat(c.as_str(), " v JOIN comic_directory d ON v.directory_fk = d.id ");
    let (middle, order) = match criteria {
        SortCriteria::TitleAsc | SortCriteria::TitleDesc => (
            head,
            " ORDER BY COALESCE(v.metadata_title, v.folder_name) ",
        ),
        SortCriteria::ChapterCountAsc | SortCriteria::ChapterCountDesc => (
            concat(
                head.as_str(),
                "LEFT JOIN (SELECT comic_directory_fk, COUNT(*) as chapter_count FROM chapter_archive GROUP BY comic_directory_fk) c ON v.directory_fk = c.comic_directory_fk ",
            ),
            " ORDER BY COALESCE(c.chapter_count, 0) ",
        ),
        SortCriteria::LastUpdatedAsc | SortCriteria::LastUpdatedDesc => (head, " ORDER BY d.last_modified "),
    };
    let with_where = concat(middle.as_str(), where_text.as_str());
    let with_order = concat(with_where.as_str(), order);
    concat(with_order.as_str(), dir)
}

/// The `ORDER BY` text of a chapter list in the order `criteria`.
pub open spec fn chapter_order_sql(criteria: ChapterSortCriteria) -> Seq<char> {
    match criteria {
        ChapterSortCriteria::NumberAsc => "ORDER BY CAST(ca.chapter_sort AS INTEGER) ASC, CAST(CASE WHEN ca.chapter_sort LIKE '%.%' THEN SUBSTR(ca.chapter_sort, INSTR(ca.chapter_sort, '.') + 1) ELSE 0 END AS INTEGER) ASC, (ca.is_special OR COALESCE(va.is_special, 0)) ASC"@,
        ChapterSortCriteria::NumberDesc => "ORDER BY CAST(ca.chapter_sort AS INTEGER) DESC, CAST(CASE WHEN ca.chapter_sort LIKE '%.%' THEN SUBSTR(ca.chapter_sort, INSTR(ca.chapter_sort, '.') + 1) ELSE 0 END AS INTEGER) DESC, (ca.is_special OR COALESCE(va.is_special, 0)) ASC"@,
        ChapterSortCriteria::ModifiedAsc => "ORDER BY ca.last_modified ASC"@,
        ChapterSortCriteria::ModifiedDesc => "ORDER BY ca.last_modified DESC"@,
    }
}

/// The `ORDER BY` clause of a chapter list: by number (integer part, then
/// decimal part, specials last) or by modification time.
pub fn order_clause(criteria: ChapterSortCriteria) -> (r: &'static str)
    ensures
        r@ == chapter_order_sql(criteria),
{
    match criteria {
        ChapterSortCriteria::NumberAsc => "ORDER BY CAST(ca.chapter_sort AS INTEGER) ASC, CAST(CASE WHEN ca.chapter_sort LIKE '%.%' THEN SUBSTR(ca.chapter_sort, INSTR(ca.chapter_sort, '.') + 1) ELSE 0 END AS INTEGER) ASC, (ca.is_special OR COALESCE(va.is_special, 0)) ASC",
        ChapterSortCriteria::NumberDesc => "ORDER BY CAST(ca.chapter_sort AS INTEGER) DESC, CAST(CASE WHEN ca.chapter_sort LIKE '%.%' THEN SUBSTR(ca.chapter_sort, INSTR(ca.chapter_sort, '.') + 1) ELSE 0 END AS INTEGER) DESC, (ca.is_special OR COALESCE(va.is_special, 0)) ASC",
        ChapterSortCriteria::ModifiedAsc => "ORDER BY ca.last_modified ASC",
        ChapterSortCriteria::ModifiedDesc => "ORDER BY ca.last_modified DESC",
    }
}

/// The `ORDER BY` text of a volume list in the order `criteria`.
pub open spec fn volume_order_sql(criteria: ChapterSortCriteria) -> Seq<char> {
    match criteria {
        ChapterSortCriteria::NumberAsc => "ORDER BY va.is_special ASC, CAST(va.volume_sort AS INTEGER) ASC, CAST(CASE WHEN va.volume_sort LIKE '%.%' THEN SUBSTR(va.volume_sort, INSTR(va.volume_sort, '.') + 1) ELSE 0 END AS INTEGER) ASC"@,
        ChapterSortCriteria::NumberDesc => "ORDER BY va.is_special ASC, CAST(va.volume_sort AS INTEGER) DESC, CAST(CASE WHEN va.volume_sort LIKE '%.%' THEN SUBSTR(va.volume_sort, INSTR(va.volume_sort, '.') + 1) ELSE 0 END AS INTEGER) DESC"@,
        ChapterSortCriteria::ModifiedAsc => "ORDER BY va.is_special ASC, va.last_modified ASC"@,
        ChapterSortCriteria::ModifiedDesc => "ORDER BY va.is_special ASC, va.last_modified DESC"@,
    }
}

/// The `ORDER BY` clause of a volume list: specials last, then by number
/// or modification time.
pub fn order_clause_for_volumes(criteria: ChapterSortCriteria) -> (r: &'static str)
    ensures
        r@ == volume_order_sql(criteria),
{
    match criteria {
        ChapterSortCriteria::NumberAsc => "ORDER BY va.is_special ASC, CAST(va.volume_sort AS INTEGER) ASC, CAST(CASE WHEN va.volume_sort LIKE '%.%' THEN SUBSTR(va.volume_sort, INSTR(va.volume_sort, '.') + 1) ELSE 0 END AS INTEGER) ASC",
        ChapterSortCriteria::NumberDesc => "ORDER BY va.is_special ASC, CAST(va.volume_sort AS INTEGER) DESC, CAST(CASE WHEN va.volume_sort LIKE '%.%' THEN SUBSTR(va.volume_sort, INSTR(va.volume_sort, '.') + 1) ELSE 0 END AS INTEGER) DESC",
        ChapterSortCriteria::ModifiedAsc => "ORDER BY va.is_special ASC, va.last_modified ASC",
        ChapterSortCriteria::ModifiedDesc => "ORDER BY va.is_special ASC, va.last_modified DESC",
    }
}

/// A volume of a comic with the number of chapters it holds.
#[derive(Debug, Clone, PartialEq, Eq)]
pub struct VolumeWithCount {
    pub id: i64,
    pub name: String,
    pub path: String,
    pub volume_sort: String,
    pub is_special: bool,
    pub cover: Option<String>,
    pub banner: Option<String>,
    pub comic_directory_fk: i64,
    pub last_modified: i64,
    pub chapter_count: i64,
}

/// Which rows fill the page.
#[derive(Debug, Clone, PartialEq, Eq)]
pub enum ChapterQuery {
    /// The chapters of one volume.
    ByVolume(i64),
    /// The chapters whose name contains the text.
    Search(String),
    /// All chapters of the comic.
    All,
}

/// A search text was given and is not empty.
pub open spec fn nonempty_query(search_query: Option<&str>) -> bool {
    match search_query {
        Some(q) => q@.len() > 0,
        None => false,
    }
}

/// The query for a page: a volume filter wins; otherwise a non-empty
/// search text searches; otherwise all chapters are listed.
pub fn chapter_query(volume_id_filter: Option<i64>, search_query: Option<&str>) -> (r: ChapterQuery)
    ensures
        volume_id_filter matches Some(v) ==> r == ChapterQuery::ByVolume(v),
        (volume_id_filter is None) && nonempty_query(search_query) ==> (r matches ChapterQuery::Search(s) && s@ == search_query.unwrap()@),
        (volume_id_filter is None) && !nonempty_query(search_query) ==> r == ChapterQuery::All,
{
    match volume_id_filter {
        Some(v) => ChapterQuery::ByVolume(v),
        None => match search_query {
            Some(q) => {
                if q.unicode_len() > 0 {
                    ChapterQuery::Search(q.to_string())
                } else {
                    ChapterQuery::All
                }
            },
            None => ChapterQuery::All,
        },
    }
}

/// The row offset of a page.
pub fn page_offset(page: i32, page_size: i32) -> (r: i64)
    ensures
        r == page as int * page_size as int,
        -4611686018427387904 <= r <= 4611686018427387904,
{
    let p = page as i64;
    let s = page_size as i64;
    assert(-2147483648 <= p <= 2147483647 && -2147483648 <= s <= 2147483647);
    assert(p * s <= 4611686018427387904 && p * s >= -4611686018427387904) by (nonlinear_arith)
        requires
            -2147483648 <= p <= 2147483647,
            -2147483648 <= s <= 2147483647,
    ;
    p * s
}

/// The number of pages of `page_size` items that `total` items fill, as
/// the quotient rounded up and converted to an integer (a zero page size
/// gives the largest integer for a non-zero total and 0 for an empty one).
pub open spec fn spec_total_pages(total: i64, page_size: i64) -> i64 {
    if page_size > 0 {
        ((total + page_size - 1) / (page_size as int)) as i64
    } else if page_size == 0 {
        if total > 0 {
            i64::MAX
        } else {
            0
        }
    } else {
        (-(total as int / (-(page_size as int)))) as i64
    }
}

/// Pages needed for `total` items at `page_size` per page.
pub fn total_pages(total: i64, page_size: i64) -> (r: i64)
    requires
        0 <= total < 0x20_0000_0000_0000,
    ensures
        r == spec_total_pages(total, page_size),
{
    if page_size > 0 {
        let t = total as i128;
        let s = page_size as i128;
        ((t + s - 1) / s) as i64
    } else if page_size == 0 {
        if total > 0 {
            i64::MAX
        } else {
            0
        }
    } else {
        let t = total as i128;
        let s = -(page_size as i128);
        (-(t / s)) as i64
    }
}

/// One chapter as the chapter list shows it.
#[derive(Debug, Clone, PartialEq, Eq)]
pub struct ChapterFileDto {
    pub id: String,
    pub name: String,
    pub path: String,
    pub chapter_sort: String,
    pub volume_id: Option<String>,
    pub volume_name: Option<String>,
    pub is_special: bool,
    pub last_modified: i64,
}

/// One volume as the chapter list shows it.
#[derive(Debug, Clone, PartialEq, Eq)]
pub struct VolumeArchiveDto {
    pub id: String,
    pub name: String,
    pub volume_sort: String,
    pub is_special: bool,
    pub cover_uri: Option<String>,
    pub banner_uri: Option<String>,
    pub last_modified: i64,
    pub chapter_count: i64,
}

/// The chapters of one volume on the page, with that volume's paging.
#[derive(Debug, Clone, PartialEq, Eq)]
pub struct VolumeChapterGroupDto {
    pub volume: VolumeArchiveDto,
    pub items: Vec<ChapterFileDto>,
    pub total_chapters: i64,
    pub loaded_count: i64,
    pub has_more: bool,
    pub current_page: i64,
    pub total_pages: i64,
}

/// One page of chapters.
#[derive(Debug, Clone, PartialEq, Eq)]
pub struct ChapterPageDto {
    pub items: Vec<ChapterFileDto>,
    pub volumes: Vec<VolumeArchiveDto>,
    pub page_size: i64,
    pub page: i64,
    pub total: i64,
    pub volume_sections: Vec<VolumeChapterGroupDto>,
}

/// Whether the list is shown by volume or as a flat list of chapters.
#[derive(Debug, Clone, Copy, PartialEq, Eq, Structural)]
pub enum VolumeViewType {
    Volume,
    Chapter,
}

/// The chapter list of a comic.
#[derive(Debug, Clone, PartialEq, Eq)]
pub struct ChapterDto {
    pub archive: ChapterPageDto,
    pub show_volume_headers: bool,
    pub has_volume_structure: bool,
    pub effective_view_mode: VolumeViewType,
}

/// The view of an optional string.
pub open spec fn opt_string(o: Option<String>) -> Option<Seq<char>> {
    match o {
        Some(s) => Some(s@),
        None => None,
    }
}

/// `dto` shows chapter `row`.
pub open spec fn shows_chapter(dto: ChapterFileDto, row: ChapterArchiveWithVolume) -> bool {
    &&& dto.id@ == signed_decimal(row.id as int)
    &&& dto.name@ == row.chapter@
    &&& dto.path@ == row.path@
    &&& dto.chapter_sort@ == row.chapter_sort@
    &&& dto.volume_id.is_some() == row.volume_fk.is_some()
    &&& (row.volume_fk matches Some(v) ==> dto.volume_id.unwrap()@ == signed_decimal(v as int))
    &&& opt_string(dto.volume_name) == opt_string(row.volume_name)
    &&& dto.is_special == row.is_special
    &&& dto.last_modified == row.last_modified
}

/// `dto` shows volume `v`.
pub open spec fn shows_volume(dto: VolumeArchiveDto, v: VolumeWithCount) -> bool {
    &&& dto.id@ == signed_decimal(v.id as int)
    &&& dto.name@ == v.name@
    &&& dto.volume_sort@ == v.volume_sort@
    &&& dto.is_special == v.is_special
    &&& opt_string(dto.cover_uri) == opt_string(v.cover)
    &&& opt_string(dto.banner_uri) == opt_string(v.banner)
    &&& dto.last_modified == v.last_modified
    &&& dto.chapter_count == v.chapter_count
}

fn clone_opt(o: &Option<String>) -> (r: Option<String>)
    ensures
        opt_string(r) == opt_string(*o),
{
    match o {
        Some(s) => Some(s.clone()),
        None => None,
    }
}

/// The list entry of a chapter row.
pub fn chapter_file_dto(row: &ChapterArchiveWithVolume) -> (r: ChapterFileDto)
    ensures
        shows_chapter(r, *row),
{
    ChapterFileDto {
        id: i64_to_string(row.id),
        name: row.chapter.clone(),
        path: row.path.clone(),
        chapter_sort: row.chapter_sort.clone(),
        volume_id: match row.volume_fk {
            Some(v) => Some(i64_to_string(v)),
            None => None,
        },
        volume_name: clone_opt(&row.volume_name),
        is_special: row.is_special,
        last_modified: row.last_modified,
    }
}

/// The list entry of a volume.
pub fn volume_dto(v: &VolumeWithCount) -> (r: VolumeArchiveDto)
    ensures
        shows_volume(r, *v),
{
    VolumeArchiveDto {
        id: i64_to_string(v.id),
        name: v.name.clone(),
        volume_sort: v.volume_sort.clone(),
        is_special: v.is_special,
        cover_uri: clone_opt(&v.cover),
        banner_uri: clone_opt(&v.banner),
        last_modified: v.last_modified,
        chapter_count: v.chapter_count,
    }
}

/// The rows of the page that belong to volume `id`, in page order.
pub open spec fn rows_in_volume(rows: Seq<ChapterArchiveWithVolume>, id: i64) -> Seq<
    ChapterArchiveWithVolume,
> {
    rows.filter(|r: ChapterArchiveWithVolume| r.volume_fk == Some(id))
}

/// Every entry of `dtos` shows the row at the same position.
pub open spec fn shows_all(dtos: Seq<ChapterFileDto>, rows: Seq<ChapterArchiveWithVolume>) -> bool {
    dtos.len() == rows.len() && forall|j: int| 0 <= j < rows.len() ==> shows_chapter(#[trigger] dtos[j], rows[j])
}

/// The positions of the volumes that have chapters on the page, in volume
/// order.
pub open spec fn volumes_on_page(volumes: Seq<VolumeWithCount>, rows: Seq<ChapterArchiveWithVolume>) -> Seq<int>
    decreases volumes.len(),
{
    if volumes.len() == 0 {
        Seq::empty()
    } else {
        let rest = volumes_on_page(volumes.drop_last(), rows);
        if rows_in_volume(rows, volumes.last().id).len() > 0 {
            rest.push(volumes.len() - 1)
        } else {
            rest
        }
    }
}

/// `section` is the group of volume `v` for the page at `offset`.
pub open spec fn is_section(
    section: VolumeChapterGroupDto,
    v: VolumeWithCount,
    rows: Seq<ChapterArchiveWithVolume>,
    page: i64,
    page_size: i64,
    offset: int,
) -> bool {
    &&& shows_volume(section.volume, v)
    &&& shows_all(section.items@, rows_in_volume(rows, v.id))
    &&& section.total_chapters == v.chapter_count
    &&& section.loaded_count == section.items.len()
    &&& section.has_more == (offset + section.loaded_count < v.chapter_count)
    &&& section.current_page == page
    &&& section.total_pages == spec_total_pages(v.chapter_count, page_size)
}

/// The entries of the rows that belong to volume `id`.
fn chapters_of_volume(rows: &Vec<ChapterArchiveWithVolume>, id: i64) -> (r: Vec<ChapterFileDto>)
    ensures
        shows_all(r@, rows_in_volume(rows@, id)),
{
    let mut out: Vec<ChapterFileDto> = Vec::new();
    let mut i: usize = 0;
    while i < rows.len()
        invariant
            i <= rows.len(),
            shows_all(out@, rows_in_volume(rows@.take(i as int), id)),
        decreases rows.len() - i,
    {
        let ghost prev = rows_in_volume(rows@.take(i as int), id);
        proof {
            assert(rows@.take(i + 1).drop_last() =~= rows@.take(i as int));
            reveal(Seq::filter);
        }
        let matches = match rows[i].volume_fk {
            Some(v) => v == id,
            None => false,
        };
        if matches {
            let dto = chapter_file_dto(&rows[i]);
            out.push(dto);
            assert(rows_in_volume(rows@.take(i + 1), id) == prev.push(rows@[i as int]));
        } else {
            assert(rows_in_volume(rows@.take(i + 1), id) == prev);
        }
        i += 1;
    }
    assert(rows@.take(i as int) =~= rows@);
    out
}

/// Builds the page from the rows and volumes read for it. With volumes,
/// each volume that has chapters on the page gets a section with its own
/// paging; without volumes the list is flat.
pub fn assemble_chapter_page(
    rows: &Vec<ChapterArchiveWithVolume>,
    volumes: &Vec<VolumeWithCount>,
    page: i32,
    page_size: i32,
    total: i64,
) -> (r: ChapterDto)
    requires
        forall|k: int| 0 <= k < volumes.len() ==> 0 <= (#[trigger] volumes@[k]).chapter_count < 0x20_0000_0000_0000,
        rows.len() < 0x20_0000_0000_0000,
    ensures
        shows_all(r.archive.items@, rows@),
        r.archive.volumes.len() == volumes.len(),
        forall|k: int| 0 <= k < volumes.len() ==> shows_volume(#[trigger] r.archive.volumes@[k], volumes@[k]),
        r.archive.page_size == page_size,
        r.archive.page == page,
        r.archive.total == total,
        r.has_volume_structure == (volumes.len() > 0),
        r.show_volume_headers == (volumes.len() > 0),
        r.effective_view_mode == (if volumes.len() > 0 { VolumeViewType::Volume } else { VolumeViewType::Chapter }),
        ({
            let on_page = volumes_on_page(volumes@, rows@);
            &&& r.archive.volume_sections.len() == on_page.len()
            &&& forall|k: int| 0 <= k < on_page.len() ==> is_section(
                #[trigger] r.archive.volume_sections@[k],
                volumes@[on_page[k]],
                rows@,
                page as i64,
                page_size as i64,
                page as int * page_size as int,
            )
        }),
{
    let offset = page_offset(page, page_size);
    let page_i64 = page as i64;
    let page_size_i64 = page_size as i64;
    let mut items: Vec<ChapterFileDto> = Vec::new();
    let mut i: usize = 0;
    while i < rows.len()
        invariant
            i <= rows.len(),
            items.len() == i,
            forall|j: int| 0 <= j < i ==> shows_chapter(#[trigger] items@[j], rows@[j]),
        decreases rows.len() - i,
    {
        items.push(chapter_file_dto(&rows[i]));
        i += 1;
    }
    let mut volume_dtos: Vec<VolumeArchiveDto> = Vec::new();
    let mut k: usize = 0;
    while k < volumes.len()
        invariant
            k <= volumes.len(),
            volume_dtos.len() == k,
            forall|j: int| 0 <= j < k ==> shows_volume(#[trigger] volume_dtos@[j], volumes@[j]),
        decreases volumes.len() - k,
    {
        volume_dtos.push(volume_dto(&volumes[k]));
        k += 1;
    }
    let has_volume_structure = volumes.len() > 0;
    let mut sections: Vec<VolumeChapterGroupDto> = Vec::new();
    let mut m: usize = 0;
    while m < volumes.len()
        invariant
            m <= volumes.len(),
            rows.len() < 0x20_0000_0000_0000,
            offset == page as int * page_size as int,
            -4611686018427387904 <= offset <= 4611686018427387904,
            page_i64 == page,
            page_size_i64 == page_size,
            forall|q: int| 0 <= q < volumes.len() ==> 0 <= (#[trigger] volumes@[q]).chapter_count < 0x20_0000_0000_0000,
            ({
                let on_page = volumes_on_page(volumes@.take(m as int), rows@);
                &&& sections.len() == on_page.len()
                &&& forall|q: int| 0 <= q < on_page.len() ==> is_section(
                    #[trigger] sections@[q],
                    volumes@[on_page[q]],
                    rows@,
                    page as i64,
                    page_size as i64,
                    page as int * page_size as int,
                )
            }),
        decreases volumes.len() - m,
    {
        let ghost before = volumes_on_page(volumes@.take(m as int), rows@);
        proof {
            assert(volumes@.take(m + 1).drop_last() =~= volumes@.take(m as int));
            assert(volumes@.take(m + 1).last() == volumes@[m as int]);
        }
        let volume = &volumes[m];
        let chapters_in_volume = chapters_of_volume(rows, volume.id);
        if chapters_in_volume.len() > 0 {
            let total_in_volume = volume.chapter_count;
            let loaded: i64 = chapters_in_volume.len() as i64;
            proof {
                assert(rows_in_volume(rows@, volume.id).len() <= rows@.len()) by {
                    broadcast use vstd::seq_lib::group_filter_ensures;
                }
            }
            let section = VolumeChapterGroupDto {
                volume: volume_dto(volume),
                items: chapters_in_volume,
                total_chapters: total_in_volume,
                loaded_count: loaded,
                has_more: offset + loaded < total_in_volume,
                current_page: page_i64,
                total_pages: total_pages(total_in_volume, page_size_i64),
            };
            sections.push(section);
            assert(volumes_on_page(volumes@.take(m + 1), rows@) == before.push(m as int));
        } else {
            assert(volumes_on_page(volumes@.take(m + 1), rows@) == before);
        }
        m += 1;
    }
    assert(volumes@.take(m as int) =~= volumes@);
    ChapterDto {
        archive: ChapterPageDto {
            items,
            volumes: volume_dtos,
            page_size: page_size_i64,
            page: page_i64,
            total,
            volume_sections: sections,
        },
        show_volume_headers: has_volume_structure,
        has_volume_structure,
        effective_view_mode: if has_volume_structure {
            VolumeViewType::Volume
        } else {
            VolumeViewType::Chapter
        },
    }
}

/// An `ORDER BY` clause over `keys`, each with its direction (`true`:
/// ascending).
pub open spec fn order_by(keys: Seq<(Seq<char>, bool)>) -> Seq<char> {
    "ORDER BY "@ + order_terms(keys)
}

/// The terms of an `ORDER BY` clause, separated by `, `.
pub open spec fn order_terms(keys: Seq<(Seq<char>, bool)>) -> Seq<char>
    decreases keys.len(),
{
    if keys.len() == 0 {
        Seq::empty()
    } else {
        let last = keys.last().0 + if keys.last().1 { " ASC"@ } else { " DESC"@ };
        if keys.len() == 1 {
            last
        } else {
            order_terms(keys.drop_last()) + ", "@ + last
        }
    }
}

/// The terms of a three-key clause, as its keys' terms in order.
proof fn lemma_three_terms(a: (Seq<char>, bool), b: (Seq<char>, bool), c: (Seq<char>, bool))
    ensures
        order_terms(seq![a, b, c]) == order_terms(seq![a, b]) + ", "@ + c.0 + if c.1 { " ASC"@ } else { " DESC"@ },
        order_terms(seq![a, b]) == order_terms(seq![a]) + ", "@ + b.0 + if b.1 { " ASC"@ } else { " DESC"@ },
{
    assert(seq![a, b, c].drop_last() =~= seq![a, b]);
    assert(seq![a, b].drop_last() =~= seq![a]);
}

proof fn lemma_order_clause_1()
    ensures
        chapter_order_sql(ChapterSortCriteria::NumberAsc) == order_by(seq![("CAST(ca.chapter_sort AS INTEGER)"@, true), ("CAST(CASE WHEN ca.chapter_sort LIKE '%.%' THEN SUBSTR(ca.chapter_sort, INSTR(ca.chapter_sort, '.') + 1) ELSE 0 END AS INTEGER)"@, true), ("(ca.is_special OR COALESCE(va.is_special, 0))"@, true)]),
{
    reveal_strlit("ORDER BY ");
    reveal_strlit(", ");
    reveal_strlit(" ASC");
    reveal_strlit(" DESC");
    reveal_strlit("(ca.is_special OR COALESCE(va.is_special, 0))");
    reveal_strlit("CAST(CASE WHEN ca.chapter_sort LIKE '%.%' THEN SUBSTR(ca.chapter_sort, INSTR(ca.chapter_sort, '.') + 1) ELSE 0 END AS INTEGER)");
    reveal_strlit("CAST(ca.chapter_sort AS INTEGER)");
    reveal_strlit("ORDER BY CAST(ca.chapter_sort AS INTEGER) ASC, CAST(CASE WHEN ca.chapter_sort LIKE '%.%' THEN SUBSTR(ca.chapter_sort, INSTR(ca.chapter_sort, '.') + 1) ELSE 0 END AS INTEGER) ASC, (ca.is_special OR COALESCE(va.is_special, 0)) ASC");
    reveal_with_fuel(order_terms, 4);
    lemma_three_terms(("CAST(ca.chapter_sort AS INTEGER)"@, true), ("CAST(CASE WHEN ca.chapter_sort LIKE '%.%' THEN SUBSTR(ca.chapter_sort, INSTR(ca.chapter_sort, '.') + 1) ELSE 0 END AS INTEGER)"@, true), ("(ca.is_special OR COALESCE(va.is_special, 0))"@, true));
    assert(chapter_order_sql(ChapterSortCriteria::NumberAsc) =~= order_by(seq![("CAST(ca.chapter_sort AS INTEGER)"@, true), ("CAST(CASE WHEN ca.chapter_sort LIKE '%.%' THEN SUBSTR(ca.chapter_sort, INSTR(ca.chapter_sort, '.') + 1) ELSE 0 END AS INTEGER)"@, true), ("(ca.is_special OR COALESCE(va.is_special, 0))"@, true)]));
}

proof fn lemma_order_clause_2()
    ensures
        chapter_order_sql(ChapterSortCriteria::NumberDesc) == order_by(seq![("CAST(ca.chapter_sort AS INTEGER)"@, false), ("CAST(CASE WHEN ca.chapter_sort LIKE '%.%' THEN SUBSTR(ca.chapter_sort, INSTR(ca.chapter_sort, '.') + 1) ELSE 0 END AS INTEGER)"@, false), ("(ca.is_special OR COALESCE(va.is_special, 0))"@, true)]),
{
    reveal_strlit("ORDER BY ");
    reveal_strlit(", ");
    reveal_strlit(" ASC");
    reveal_strlit(" DESC");
    reveal_strlit("(ca.is_special OR COALESCE(va.is_special, 0))");
    reveal_strlit("CAST(CASE WHEN ca.chapter_sort LIKE '%.%' THEN SUBSTR(ca.chapter_sort, INSTR(ca.chapter_sort, '.') + 1) ELSE 0 END AS INTEGER)");
    reveal_strlit("CAST(ca.chapter_sort AS INTEGER)");
    reveal_strlit("ORDER BY CAST(ca.chapter_sort AS INTEGER) DESC, CAST(CASE WHEN ca.chapter_sort LIKE '%.%' THEN SUBSTR(ca.chapter_sort, INSTR(ca.chapter_sort, '.') + 1) ELSE 0 END AS INTEGER) DESC, (ca.is_special OR COALESCE(va.is_special, 0)) ASC");
    reveal_with_fuel(order_terms, 4);
    lemma_three_terms(("CAST(ca.chapter_sort AS INTEGER)"@, false), ("CAST(CASE WHEN ca.chapter_sort LIKE '%.%' THEN SUBSTR(ca.chapter_sort, INSTR(ca.chapter_sort, '.') + 1) ELSE 0 END AS INTEGER)"@, false), ("(ca.is_special OR COALESCE(va.is_special, 0))"@, true));
    assert(chapter_order_sql(ChapterSortCriteria::NumberDesc) =~= order_by(seq![("CAST(ca.chapter_sort AS INTEGER)"@, false), ("CAST(CASE WHEN ca.chapter_sort LIKE '%.%' THEN SUBSTR(ca.chapter_sort, INSTR(ca.chapter_sort, '.') + 1) ELSE 0 END AS INTEGER)"@, false), ("(ca.is_special OR COALESCE(va.is_special, 0))"@, true)]));
}

proof fn lemma_order_clause_3()
    ensures
        chapter_order_sql(ChapterSortCriteria::ModifiedAsc) == order_by(seq![("ca.last_modified"@, true)]),
{
    reveal_strlit("ORDER BY ");
    reveal_strlit(", ");
    reveal_strlit(" ASC");
    reveal_strlit(" DESC");
    reveal_strlit("ca.last_modified");
    reveal_strlit("ORDER BY ca.last_modified ASC");
    reveal_with_fuel(order_terms, 4);
    assert(chapter_order_sql(ChapterSortCriteria::ModifiedAsc) =~= order_by(seq![("ca.last_modified"@, true)]));
}

proof fn lemma_order_clause_4()
    ensures
        chapter_order_sql(ChapterSortCriteria::ModifiedDesc) == order_by(seq![("ca.last_modified"@, false)]),
{
    reveal_strlit("ORDER BY ");
    reveal_strlit(", ");
    reveal_strlit(" ASC");
    reveal_strlit(" DESC");
    reveal_strlit("ca.last_modified");
    reveal_strlit("ORDER BY ca.last_modified DESC");
    reveal_with_fuel(order_terms, 4);
    assert(chapter_order_sql(ChapterSortCriteria::ModifiedDesc) =~= order_by(seq![("ca.last_modified"@, false)]));
}

proof fn lemma_order_clause_5()
    ensures
        volume_order_sql(ChapterSortCriteria::NumberAsc) == order_by(seq![("va.is_special"@, true), ("CAST(va.volume_sort AS INTEGER)"@, true), ("CAST(CASE WHEN va.volume_sort LIKE '%.%' THEN SUBSTR(va.volume_sort, INSTR(va.volume_sort, '.') + 1) ELSE 0 END AS INTEGER)"@, true)]),
{
    reveal_strlit("ORDER BY ");
    reveal_strlit(", ");
    reveal_strlit(" ASC");
    reveal_strlit(" DESC");
    reveal_strlit("CAST(CASE WHEN va.volume_sort LIKE '%.%' THEN SUBSTR(va.volume_sort, INSTR(va.volume_sort, '.') + 1) ELSE 0 END AS INTEGER)");
    reveal_strlit("CAST(va.volume_sort AS INTEGER)");
    reveal_strlit("va.is_special");
    reveal_strlit("ORDER BY va.is_special ASC, CAST(va.volume_sort AS INTEGER) ASC, CAST(CASE WHEN va.volume_sort LIKE '%.%' THEN SUBSTR(va.volume_sort, INSTR(va.volume_sort, '.') + 1) ELSE 0 END AS INTEGER) ASC");
    reveal_with_fuel(order_terms, 4);
    lemma_three_terms(("va.is_special"@, true), ("CAST(va.volume_sort AS INTEGER)"@, true), ("CAST(CASE WHEN va.volume_sort LIKE '%.%' THEN SUBSTR(va.volume_sort, INSTR(va.volume_sort, '.') + 1) ELSE 0 END AS INTEGER)"@, true));
    assert(volume_order_sql(ChapterSortCriteria::NumberAsc) =~= order_by(seq![("va.is_special"@, true), ("CAST(va.volume_sort AS INTEGER)"@, true), ("CAST(CASE WHEN va.volume_sort LIKE '%.%' THEN SUBSTR(va.volume_sort, INSTR(va.volume_sort, '.') + 1) ELSE 0 END AS INTEGER)"@, true)]));
}

proof fn lemma_order_clause_6()
    ensures
        volume_order_sql(ChapterSortCriteria::NumberDesc) == order_by(seq![("va.is_special"@, true), ("CAST(va.volume_sort AS INTEGER)"@, false), ("CAST(CASE WHEN va.volume_sort LIKE '%.%' THEN SUBSTR(va.volume_sort, INSTR(va.volume_sort, '.') + 1) ELSE 0 END AS INTEGER)"@, false)]),
{
    reveal_strlit("ORDER BY ");
    reveal_strlit(", ");
    reveal_strlit(" ASC");
    reveal_strlit(" DESC");
    reveal_strlit("CAST(CASE WHEN va.volume_sort LIKE '%.%' THEN SUBSTR(va.volume_sort, INSTR(va.volume_sort, '.') + 1) ELSE 0 END AS INTEGER)");
    reveal_strlit("CAST(va.volume_sort AS INTEGER)");
    reveal_strlit("va.is_special");
    reveal_strlit("ORDER BY va.is_special ASC, CAST(va.volume_sort AS INTEGER) DESC, CAST(CASE WHEN va.volume_sort LIKE '%.%' THEN SUBSTR(va.volume_sort, INSTR(va.volume_sort, '.') + 1) ELSE 0 END AS INTEGER) DESC");
    reveal_with_fuel(order_terms, 4);
    lemma_three_terms(("va.is_special"@, true), ("CAST(va.volume_sort AS INTEGER)"@, false), ("CAST(CASE WHEN va.volume_sort LIKE '%.%' THEN SUBSTR(va.volume_sort, INSTR(va.volume_sort, '.') + 1) ELSE 0 END AS INTEGER)"@, false));
    assert(volume_order_sql(ChapterSortCriteria::NumberDesc) =~= order_by(seq![("va.is_special"@, true), ("CAST(va.volume_sort AS INTEGER)"@, false), ("CAST(CASE WHEN va.volume_sort LIKE '%.%' THEN SUBSTR(va.volume_sort, INSTR(va.volume_sort, '.') + 1) ELSE 0 END AS INTEGER)"@, false)]));
}

proof fn lemma_order_clause_7()
    ensures
        volume_order_sql(ChapterSortCriteria::ModifiedAsc) == order_by(seq![("va.is_special"@, true), ("va.last_modified"@, true)]),
{
    reveal_strlit("ORDER BY ");
    reveal_strlit(", ");
    reveal_strlit(" ASC");
    reveal_strlit(" DESC");
    reveal_strlit("va.is_special");
    reveal_strlit("va.last_modified");
    reveal_strlit("ORDER BY va.is_special ASC, va.last_modified ASC");
    reveal_with_fuel(order_terms, 4);
    assert(volume_order_sql(ChapterSortCriteria::ModifiedAsc) =~= order_by(seq![("va.is_special"@, true), ("va.last_modified"@, true)]));
}

proof fn lemma_order_clause_8()
    ensures
        volume_order_sql(ChapterSortCriteria::ModifiedDesc) == order_by(seq![("va.is_special"@, true), ("va.last_modified"@, false)]),
{
    reveal_strlit("ORDER BY ");
    reveal_strlit(", ");
    reveal_strlit(" ASC");
    reveal_strlit(" DESC");
    reveal_strlit("va.is_special");
    reveal_strlit("va.last_modified");
    reveal_strlit("ORDER BY va.is_special ASC, va.last_modified DESC");
    reveal_with_fuel(order_terms, 4);
    assert(volume_order_sql(ChapterSortCriteria::ModifiedDesc) =~= order_by(seq![("va.is_special"@, true), ("va.last_modified"@, false)]));
}

/// Descending order is ascending order reversed, key by key: a chapter
/// list by number is ordered by the integer part of `chapter_sort`, then by
/// its decimal part, both in the direction asked for, with specials last in
/// either direction; by time, by the modification time in the direction
/// asked for. Volume lists put specials last first, then the same keys.
pub proof fn descending_reverses_ascending()
    ensures
        ({
            let int_part = "CAST(ca.chapter_sort AS INTEGER)"@;
            let dec_part = "CAST(CASE WHEN ca.chapter_sort LIKE '%.%' THEN SUBSTR(ca.chapter_sort, INSTR(ca.chapter_sort, '.') + 1) ELSE 0 END AS INTEGER)"@;
            let special = "(ca.is_special OR COALESCE(va.is_special, 0))"@;
            &&& chapter_order_sql(ChapterSortCriteria::NumberAsc) == order_by(seq![(int_part, true), (dec_part, true), (special, true)])
            &&& chapter_order_sql(ChapterSortCriteria::NumberDesc) == order_by(seq![(int_part, false), (dec_part, false), (special, true)])
        }),
        chapter_order_sql(ChapterSortCriteria::ModifiedAsc) == order_by(seq![("ca.last_modified"@, true)]),
        chapter_order_sql(ChapterSortCriteria::ModifiedDesc) == order_by(seq![("ca.last_modified"@, false)]),
        ({
            let int_part = "CAST(va.volume_sort AS INTEGER)"@;
            let dec_part = "CAST(CASE WHEN va.volume_sort LIKE '%.%' THEN SUBSTR(va.volume_sort, INSTR(va.volume_sort, '.') + 1) ELSE 0 END AS INTEGER)"@;
            &&& volume_order_sql(ChapterSortCriteria::NumberAsc) == order_by(seq![("va.is_special"@, true), (int_part, true), (dec_part, true)])
            &&& volume_order_sql(ChapterSortCriteria::NumberDesc) == order_by(seq![("va.is_special"@, true), (int_part, false), (dec_part, false)])
        }),
        volume_order_sql(ChapterSortCriteria::ModifiedAsc) == order_by(seq![("va.is_special"@, true), ("va.last_modified"@, true)]),
        volume_order_sql(ChapterSortCriteria::ModifiedDesc) == order_by(seq![("va.is_special"@, true), ("va.last_modified"@, false)]),
{
    lemma_order_clause_1();
    lemma_order_clause_2();
    lemma_order_clause_3();
    lemma_order_clause_4();
    lemma_order_clause_5();
    lemma_order_clause_6();
    lemma_order_clause_7();
    lemma_order_clause_8();
}

} // verus!
