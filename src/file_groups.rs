//! Groups files by the base id in their names and flags groups whose members
//! disagree on extension or on the presence of a serial marker.
use vstd::prelude::*;

verus! {

/// The naming convention: a base id of two or more word characters, a hyphen
/// and two or more digits, then an optional serial marker `_x`.
pub const ID_PATTERN: &'static str = "^(\\w{2,}-\\d{2,})(?:_(\\w))?";

// ---------------------------------------------------------------------------
// Paths, file names and extensions
// ---------------------------------------------------------------------------

/// Index just past the last `/` of `path`, or 0 where it holds none.
pub open spec fn name_start(path: Seq<char>) -> int
    decreases path.len(),
{
    if path.len() == 0 {
        0
    } else if path.last() == '/' {
        path.len() as int
    } else {
        name_start(path.drop_last())
    }
}

/// The file-name part of a path: what follows its last `/`.
pub open spec fn file_name_of(path: Seq<char>) -> Seq<char> {
    path.subrange(name_start(path), path.len() as int)
}

/// Index of the last `.` of `name`, if it holds one.
pub open spec fn last_dot(name: Seq<char>) -> Option<int>
    decreases name.len(),
{
    if name.len() == 0 {
        None
    } else if name.last() == '.' {
        Some(name.len() - 1)
    } else {
        last_dot(name.drop_last())
    }
}

/// The extension of a file name: what follows its last `.`, where that dot is
/// not the name's first character; none for `..`.
pub open spec fn extension_of(name: Seq<char>) -> Option<Seq<char>> {
    if name == seq!['.', '.'] {
        None
    } else {
        match last_dot(name) {
            Some(i) => if i > 0 {
                Some(name.subrange(i + 1, name.len() as int))
            } else {
                None
            },
            None => None,
        }
    }
}

proof fn lemma_name_start_bounds(path: Seq<char>)
    ensures
        0 <= name_start(path) <= path.len(),
    decreases path.len(),
{
    if path.len() > 0 && path.last() != '/' {
        lemma_name_start_bounds(path.drop_last());
    }
}

proof fn lemma_last_dot_bounds(name: Seq<char>)
    ensures
        last_dot(name) matches Some(i) ==> 0 <= i < name.len(),
    decreases name.len(),
{
    if name.len() > 0 && name.last() != '.' {
        lemma_last_dot_bounds(name.drop_last());
    }
}

/// The file-name part of `path`: what follows its last `/`.
pub fn file_name(path: &str) -> (r: String)
    ensures
        r@ == file_name_of(path@),
{
    let n = path.unicode_len();
    let mut start: usize = 0;
    let mut i: usize = 0;
    while i < n
        invariant
            n == path@.len(),
            i <= n,
            start as int == name_start(path@.take(i as int)),
        decreases n - i,
    {
        proof {
            assert(path@.take(i + 1).drop_last() =~= path@.take(i as int));
        }
        if path.get_char(i) == '/' {
            start = i + 1;
        }
        i = i + 1;
    }
    proof {
        assert(path@.take(n as int) =~= path@);
        lemma_name_start_bounds(path@);
    }
    String::from_str(path.substring_char(start, n))
}

/// The extension of the file name `name`, as `std::path::Path::extension`
/// gives it for a bare file name.
pub fn extension(name: &str) -> (r: Option<String>)
    ensures
        r.deep_view() == extension_of(name@),
{
    let n = name.unicode_len();
    let mut dot: Option<usize> = None;
    let mut i: usize = 0;
    while i < n
        invariant
            n == name@.len(),
            i <= n,
            match dot {
                Some(d) => last_dot(name@.take(i as int)) == Some(d as int),
                None => last_dot(name@.take(i as int)) is None,
            },
        decreases n - i,
    {
        proof {
            assert(name@.take(i + 1).drop_last() =~= name@.take(i as int));
        }
        if name.get_char(i) == '.' {
            dot = Some(i);
        }
        i = i + 1;
    }
    proof {
        assert(name@.take(n as int) =~= name@);
        lemma_last_dot_bounds(name@);
    }
    if n == 2 && name.get_char(0) == '.' && name.get_char(1) == '.' {
        proof {
            assert(name@ =~= seq!['.', '.']);
        }
        return None;
    }
    match dot {
        Some(d) => {
            if d > 0 {
                Some(String::from_str(name.substring_char(d + 1, n)))
            } else {
                None
            }
        },
        None => None,
    }
}

// ---------------------------------------------------------------------------
// Matching a file name against the naming convention
// ---------------------------------------------------------------------------

#[verifier::external_type_specification]
#[verifier::external_body]
pub struct ExRegexError(regex::Error);

/// Whether `regex::Regex::new` accepts `pattern`.
pub uninterp spec fn regex_compiles(pattern: Seq<char>) -> bool;

/// The texts of capture groups 1 and 2 of the first match that
/// `regex::Regex::captures` finds for `pattern` in `text`; `None` where it finds
/// none.
pub uninterp spec fn regex_captures(pattern: Seq<char>, text: Seq<char>) -> Option<
    (Option<Seq<char>>, Option<Seq<char>>),
>;

/// The view of what `captures` hands back.
pub open spec fn captures_view(g: Option<(Option<String>, Option<String>)>) -> Option<
    (Option<Seq<char>>, Option<Seq<char>>),
> {
    match g {
        Some((a, b)) => Some((a.deep_view(), b.deep_view())),
        None => None,
    }
}

/// Relies on `regex::Regex::new`, which compiles `pattern` or reports why it
/// cannot, and on `regex::Regex::captures`, which finds the first match in
/// `text` and the texts of its capture groups 1 and 2.
#[verifier::external_body]
fn captures(pattern: &str, text: &str) -> (r: Result<
    Option<(Option<String>, Option<String>)>,
    regex::Error,
>)
    ensures
        r is Ok <==> regex_compiles(pattern@),
        r matches Ok(g) ==> captures_view(g) == regex_captures(pattern@, text@),
{
    let re = regex::Regex::new(pattern)?;
    Ok(
        re.captures(text).map(
            |c|
                (
                    c.get(1).map(|m| m.as_str().to_string()),
                    c.get(2).map(|m| m.as_str().to_string()),
                ),
        ),
    )
}

// ---------------------------------------------------------------------------
// File records
// ---------------------------------------------------------------------------

/// One file that follows the naming convention.
pub struct FileRecord {
    pub path: String,
    pub base_id: String,
    pub serial_marker: Option<String>,
    pub extension: String,
}

/// The mathematical value of a `FileRecord`.
pub struct FileRecordView {
    pub path: Seq<char>,
    pub base_id: Seq<char>,
    pub serial_marker: Option<Seq<char>>,
    pub extension: Seq<char>,
}

impl View for FileRecord {
    type V = FileRecordView;

    open spec fn view(&self) -> FileRecordView {
        FileRecordView {
            path: self.path@,
            base_id: self.base_id@,
            serial_marker: self.serial_marker.deep_view(),
            extension: self.extension@,
        }
    }
}

/// Why a scan gave up.
pub enum ScanError {
    /// The naming pattern does not compile.
    InvalidPattern,
    /// A file that follows the naming convention has no extension.
    MissingExtension(String),
}

/// The mathematical value of a `ScanError`.
pub enum ScanErrorView {
    InvalidPattern,
    MissingExtension(Seq<char>),
}

impl View for ScanError {
    type V = ScanErrorView;

    open spec fn view(&self) -> ScanErrorView {
        match self {
            ScanError::InvalidPattern => ScanErrorView::InvalidPattern,
            ScanError::MissingExtension(p) => ScanErrorView::MissingExtension(p@),
        }
    }
}

/// What classifying one path gives: a record, no record (the name does not
/// follow the convention), or an error.
pub type Classified = Result<Option<FileRecord>, ScanError>;

pub type ClassifiedView = Result<Option<FileRecordView>, ScanErrorView>;

pub open spec fn classified_view(c: Classified) -> ClassifiedView {
    match c {
        Ok(Some(r)) => Ok(Some(r@)),
        Ok(None) => Ok(None),
        Err(e) => Err(e@),
    }
}

/// The record of `path` given the capture groups of its file name: none where
/// the name did not match; a missing extension is an error.
pub open spec fn record_spec(
    path: Seq<char>,
    groups: Option<(Option<Seq<char>>, Option<Seq<char>>)>,
) -> ClassifiedView {
    match groups {
        Some((Some(id), serial)) => match extension_of(file_name_of(path)) {
            Some(ext) => Ok(
                Some(
                    FileRecordView { path, base_id: id, serial_marker: serial, extension: ext },
                ),
            ),
            None => Err(ScanErrorView::MissingExtension(path)),
        },
        _ => Ok(None),
    }
}

/// What classifying `path` under `pattern` gives.
pub open spec fn classify_spec(pattern: Seq<char>, path: Seq<char>) -> ClassifiedView {
    if !regex_compiles(pattern) {
        Err(ScanErrorView::InvalidPattern)
    } else {
        record_spec(path, regex_captures(pattern, file_name_of(path)))
    }
}

impl FileRecord {
    /// A copy of the record.
    pub fn duplicate(&self) -> (r: FileRecord)
        ensures
            r@ == self@,
    {
        let serial_marker = match &self.serial_marker {
            Some(s) => Some(s.clone()),
            None => None,
        };
        FileRecord {
            path: self.path.clone(),
            base_id: self.base_id.clone(),
            serial_marker,
            extension: self.extension.clone(),
        }
    }

    /// Builds the record of `path` from the capture groups that the naming
    /// pattern gave for its file name.
    pub fn from_groups(path: &str, groups: Option<(Option<String>, Option<String>)>) -> (r:
        Classified)
        ensures
            classified_view(r) == record_spec(path@, captures_view(groups)),
    {
        match groups {
            Some((Some(id), serial)) => {
                let name = file_name(path);
                match extension(name.as_str()) {
                    Some(ext) => Ok(
                        Some(
                            FileRecord {
                                path: String::from_str(path),
                                base_id: id,
                                serial_marker: serial,
                                extension: ext,
                            },
                        ),
                    ),
                    None => Err(ScanError::MissingExtension(String::from_str(path))),
                }
            },
            _ => Ok(None),
        }
    }

    /// Classifies `path`: matches its file name against `pattern` and builds
    /// its record.
    pub fn classify(pattern: &str, path: &str) -> (r: Classified)
        ensures
            classified_view(r) == classify_spec(pattern@, path@),
    {
        let name = file_name(path);
        match captures(pattern, name.as_str()) {
            Ok(groups) => FileRecord::from_groups(path, groups),
            Err(_) => Err(ScanError::InvalidPattern),
        }
    }
}

// ---------------------------------------------------------------------------
// Classifying a list of paths
// ---------------------------------------------------------------------------

/// What to do with a path whose file name does not follow the convention.
#[derive(Clone, Copy, Debug, PartialEq, Eq, Structural)]
pub enum NonMatchPolicy {
    /// Leave the file out and go on with the next one.
    Skip,
    /// Stop the scan there, keeping the records found so far.
    Stop,
}

/// Where a scan stands after some prefix of the paths.
pub enum ScanState {
    Running(Seq<FileRecordView>),
    Stopped(Seq<FileRecordView>),
    Failed(ScanErrorView),
}

/// The state of a scan after the paths `paths`, taken in order.
pub open spec fn scan_prefix(
    pattern: Seq<char>,
    paths: Seq<Seq<char>>,
    policy: NonMatchPolicy,
) -> ScanState
    decreases paths.len(),
{
    if paths.len() == 0 {
        ScanState::Running(seq![])
    } else {
        match scan_prefix(pattern, paths.drop_last(), policy) {
            ScanState::Running(recs) => match classify_spec(pattern, paths.last()) {
                Ok(Some(r)) => ScanState::Running(recs.push(r)),
                Ok(None) => if policy == NonMatchPolicy::Skip {
                    ScanState::Running(recs)
                } else {
                    ScanState::Stopped(recs)
                },
                Err(e) => ScanState::Failed(e),
            },
            other => other,
        }
    }
}

/// The records that a scan of `paths` yields, or the error that ends it.
pub open spec fn scan_spec(
    pattern: Seq<char>,
    paths: Seq<Seq<char>>,
    policy: NonMatchPolicy,
) -> Result<Seq<FileRecordView>, ScanErrorView> {
    match scan_prefix(pattern, paths, policy) {
        ScanState::Running(recs) => Ok(recs),
        ScanState::Stopped(recs) => Ok(recs),
        ScanState::Failed(e) => Err(e),
    }
}

pub open spec fn strings_view(v: Seq<String>) -> Seq<Seq<char>> {
    v.map_values(|s: String| s@)
}

pub open spec fn records_view(v: Seq<FileRecord>) -> Seq<FileRecordView> {
    v.map_values(|r: FileRecord| r@)
}

/// Once a scan has stopped or failed, further paths leave it as it is.
proof fn lemma_scan_settled(
    pattern: Seq<char>,
    paths: Seq<Seq<char>>,
    policy: NonMatchPolicy,
    i: int,
    j: int,
)
    requires
        0 <= i <= j <= paths.len(),
        !(scan_prefix(pattern, paths.take(i), policy) is Running),
    ensures
        scan_prefix(pattern, paths.take(j), policy) == scan_prefix(
            pattern,
            paths.take(i),
            policy,
        ),
    decreases j - i,
{
    if j > i {
        lemma_scan_settled(pattern, paths, policy, i, j - 1);
        assert(paths.take(j).drop_last() =~= paths.take(j - 1));
    }
}

/// Classifies the paths in order. A path whose file name does not follow the
/// convention is skipped or ends the scan, as `policy` says; the first error
/// ends it.
pub fn classify_all(pattern: &str, paths: &Vec<String>, policy: NonMatchPolicy) -> (r: Result<
    Vec<FileRecord>,
    ScanError,
>)
    ensures
        match r {
            Ok(recs) => scan_spec(pattern@, strings_view(paths@), policy) == Ok::<
                Seq<FileRecordView>,
                ScanErrorView,
            >(records_view(recs@)),
            Err(e) => scan_spec(pattern@, strings_view(paths@), policy) == Err::<
                Seq<FileRecordView>,
                ScanErrorView,
            >(e@),
        },
{
    let ghost ps = strings_view(paths@);
    let mut recs: Vec<FileRecord> = Vec::new();
    let mut i: usize = 0;
    proof {
        assert(ps.take(0) =~= Seq::<Seq<char>>::empty());
        assert(records_view(recs@) =~= Seq::<FileRecordView>::empty());
    }
    while i < paths.len()
        invariant
            ps == strings_view(paths@),
            i <= paths.len(),
            scan_prefix(pattern@, ps.take(i as int), policy) == ScanState::Running(
                records_view(recs@),
            ),
        decreases paths.len() - i,
    {
        proof {
            assert(ps.take(i + 1).drop_last() =~= ps.take(i as int));
            assert(ps.take(i + 1).last() == paths@[i as int]@);
        }
        let c = FileRecord::classify(pattern, paths[i].as_str());
        match c {
            Ok(Some(rec)) => {
                let ghost before = recs@;
                recs.push(rec);
                proof {
                    assert(records_view(recs@) =~= records_view(before).push(rec@));
                }
            },
            Ok(None) => {
                if policy == NonMatchPolicy::Stop {
                    proof {
                        lemma_scan_settled(pattern@, ps, policy, i + 1, ps.len() as int);
                        assert(ps.take(ps.len() as int) =~= ps);
                    }
                    return Ok(recs);
                }
            },
            Err(e) => {
                proof {
                    lemma_scan_settled(pattern@, ps, policy, i + 1, ps.len() as int);
                    assert(ps.take(ps.len() as int) =~= ps);
                }
                return Err(e);
            },
        }
        i = i + 1;
    }
    proof {
        assert(ps.take(i as int) =~= ps);
    }
    Ok(recs)
}

/// Classification reads the file name alone: two paths to files of the same
/// name give records with the same base id, serial marker and extension.
pub proof fn lemma_record_depends_on_file_name(
    pattern: Seq<char>,
    path1: Seq<char>,
    path2: Seq<char>,
)
    requires
        file_name_of(path1) == file_name_of(path2),
    ensures
        classify_spec(pattern, path1) matches Ok(Some(r1)) ==> classify_spec(pattern, path2) matches Ok(
            Some(r2),
        ) && r2.base_id == r1.base_id && r2.serial_marker == r1.serial_marker && r2.extension
            == r1.extension,
        classify_spec(pattern, path1) matches Ok(None) <==> classify_spec(pattern, path2) matches Ok(
            None,
        ),
{
}

/// Stopping at the first name that does not follow the convention keeps a
/// prefix of what skipping such names keeps, wherever skipping succeeds.
pub proof fn lemma_stop_keeps_prefix_of_skip(pattern: Seq<char>, paths: Seq<Seq<char>>)
    requires
        scan_spec(pattern, paths, NonMatchPolicy::Skip) is Ok,
    ensures
        scan_spec(pattern, paths, NonMatchPolicy::Stop) matches Ok(stopped) && stopped
            == scan_spec(pattern, paths, NonMatchPolicy::Skip)->Ok_0.take(stopped.len() as int),
{
    lemma_stop_skip_states(pattern, paths);
}

proof fn lemma_stop_skip_states(pattern: Seq<char>, paths: Seq<Seq<char>>)
    ensures
        match (
            scan_prefix(pattern, paths, NonMatchPolicy::Stop),
            scan_prefix(pattern, paths, NonMatchPolicy::Skip),
        ) {
            (ScanState::Running(a), ScanState::Running(b)) => a == b,
            (ScanState::Stopped(a), ScanState::Running(b)) => a.len() <= b.len() && a == b.take(
                a.len() as int,
            ),
            (ScanState::Stopped(_), ScanState::Failed(_)) => true,
            (ScanState::Failed(e1), ScanState::Failed(e2)) => e1 == e2,
            _ => false,
        },
    decreases paths.len(),
{
    if paths.len() > 0 {
        lemma_stop_skip_states(pattern, paths.drop_last());
        match (
            scan_prefix(pattern, paths.drop_last(), NonMatchPolicy::Stop),
            scan_prefix(pattern, paths.drop_last(), NonMatchPolicy::Skip),
        ) {
            (ScanState::Stopped(a), ScanState::Running(b)) => {
                match classify_spec(pattern, paths.last()) {
                    Ok(Some(r)) => {
                        assert(a =~= b.push(r).take(a.len() as int));
                    },
                    _ => {},
                }
            },
            _ => {},
        }
    }
}

// ---------------------------------------------------------------------------
// Grouping records by base id
// ---------------------------------------------------------------------------

/// The base ids of `recs`, each once, in the order of their first appearance.
pub open spec fn first_ids(recs: Seq<FileRecordView>) -> Seq<Seq<char>>
    decreases recs.len(),
{
    if recs.len() == 0 {
        seq![]
    } else {
        let ids = first_ids(recs.drop_last());
        if ids.contains(recs.last().base_id) {
            ids
        } else {
            ids.push(recs.last().base_id)
        }
    }
}

/// The records of `recs` whose base id is `id`, in their order.
pub open spec fn members_of(recs: Seq<FileRecordView>, id: Seq<char>) -> Seq<FileRecordView>
    decreases recs.len(),
{
    if recs.len() == 0 {
        seq![]
    } else {
        let rest = members_of(recs.drop_last(), id);
        if recs.last().base_id == id {
            rest.push(recs.last())
        } else {
            rest
        }
    }
}

/// The groups of `recs`: one for each base id, in the order of first
/// appearance, each with its records in their order.
pub open spec fn grouped(recs: Seq<FileRecordView>) -> Seq<(Seq<char>, Seq<FileRecordView>)> {
    first_ids(recs).map_values(|id: Seq<char>| (id, members_of(recs, id)))
}

/// Grouping keeps order: records that all share one base id form a single
/// group whose members are those records, in the order in which they came.
pub proof fn lemma_grouping_keeps_order(recs: Seq<FileRecordView>, id: Seq<char>)
    requires
        recs.len() > 0,
        forall|i: int| 0 <= i < recs.len() ==> (#[trigger] recs[i]).base_id == id,
    ensures
        grouped(recs) == seq![(id, recs)],
{
    lemma_one_id(recs, id);
    assert(grouped(recs) =~= seq![(id, recs)]);
}

proof fn lemma_one_id(recs: Seq<FileRecordView>, id: Seq<char>)
    requires
        recs.len() > 0,
        forall|i: int| 0 <= i < recs.len() ==> (#[trigger] recs[i]).base_id == id,
    ensures
        first_ids(recs) == seq![id],
        members_of(recs, id) == recs,
    decreases recs.len(),
{
    let init = recs.drop_last();
    if init.len() == 0 {
        assert(first_ids(init) =~= Seq::<Seq<char>>::empty());
        assert(recs.last() == recs[recs.len() - 1]);
        assert(first_ids(recs) =~= seq![id]);
        assert(members_of(init, id) =~= Seq::<FileRecordView>::empty());
        assert(init.push(recs.last()) =~= recs);
    } else {
        assert forall|i: int| 0 <= i < init.len() implies (#[trigger] init[i]).base_id == id by {
            assert(init[i] == recs[i]);
        }
        lemma_one_id(init, id);
        assert(seq![id].contains(id)) by {
            assert(seq![id][0] == id);
        }
        assert(recs.last() == recs[recs.len() - 1]);
        assert(init.push(recs.last()) =~= recs);
        assert(members_of(recs, id) == init.push(recs.last()));
    }
}

/// Well-formed groups: their base ids are pairwise distinct and every record
/// of a group carries the group's base id.
pub open spec fn groups_wf(gs: Seq<(Seq<char>, Seq<FileRecordView>)>) -> bool {
    &&& forall|a: int, b: int| 0 <= a < b < gs.len() ==> gs[a].0 != gs[b].0
    &&& forall|g: int, i: int|
        0 <= g < gs.len() && 0 <= i < gs[g].1.len() ==> (#[trigger] gs[g].1[i]).base_id == gs[g].0
}

proof fn lemma_members_share_id(recs: Seq<FileRecordView>, id: Seq<char>)
    ensures
        forall|i: int|
            0 <= i < members_of(recs, id).len() ==> (#[trigger] members_of(recs, id)[i]).base_id
                == id,
    decreases recs.len(),
{
    if recs.len() > 0 {
        lemma_members_share_id(recs.drop_last(), id);
    }
}

/// Grouping yields well-formed groups.
pub proof fn lemma_grouped_wf(recs: Seq<FileRecordView>)
    ensures
        groups_wf(grouped(recs)),
{
    lemma_first_ids_distinct(recs);
    let gs = grouped(recs);
    assert forall|g: int, i: int| 0 <= g < gs.len() && 0 <= i < gs[g].1.len() implies (
    #[trigger] gs[g].1[i]).base_id == gs[g].0 by {
        lemma_members_share_id(recs, first_ids(recs)[g]);
    }
}

/// The files that share one base id.
pub struct Group {
    pub base_id: String,
    pub files: Vec<FileRecord>,
}

impl View for Group {
    type V = (Seq<char>, Seq<FileRecordView>);

    open spec fn view(&self) -> (Seq<char>, Seq<FileRecordView>) {
        (self.base_id@, records_view(self.files@))
    }
}

/// Files grouped by base id, each base id once, in the order in which the
/// scan first met it.
pub struct GroupMap {
    pub groups: Vec<Group>,
}

pub open spec fn groups_view(v: Seq<Group>) -> Seq<(Seq<char>, Seq<FileRecordView>)> {
    v.map_values(|g: Group| g@)
}

impl View for GroupMap {
    type V = Seq<(Seq<char>, Seq<FileRecordView>)>;

    open spec fn view(&self) -> Seq<(Seq<char>, Seq<FileRecordView>)> {
        groups_view(self.groups@)
    }
}

/// The base ids of a grouping are pairwise distinct.
proof fn lemma_first_ids_distinct(recs: Seq<FileRecordView>)
    ensures
        forall|a: int, b: int|
            0 <= a < b < first_ids(recs).len() ==> first_ids(recs)[a] != first_ids(recs)[b],
    decreases recs.len(),
{
    if recs.len() > 0 {
        lemma_first_ids_distinct(recs.drop_last());
        let ids = first_ids(recs.drop_last());
        let id = recs.last().base_id;
        if !ids.contains(id) {
            assert forall|a: int| 0 <= a < ids.len() implies ids[a] != id by {
                if ids[a] == id {
                    assert(ids.contains(id));
                }
            }
        }
    }
}

/// The records of `records` whose base id is `id`.
fn members(records: &Vec<FileRecord>, id: &String) -> (r: Vec<FileRecord>)
    ensures
        records_view(r@) == members_of(records_view(records@), id@),
{
    let ghost rs = records_view(records@);
    let mut out: Vec<FileRecord> = Vec::new();
    let mut i: usize = 0;
    proof {
        assert(rs.take(0) =~= Seq::<FileRecordView>::empty());
        assert(records_view(out@) =~= Seq::<FileRecordView>::empty());
    }
    while i < records.len()
        invariant
            rs == records_view(records@),
            i <= records.len(),
            records_view(out@) == members_of(rs.take(i as int), id@),
        decreases records.len() - i,
    {
        proof {
            assert(rs.take(i + 1).drop_last() =~= rs.take(i as int));
            assert(rs.take(i + 1).last() == records@[i as int]@);
        }
        if records[i].base_id == *id {
            let ghost before = out@;
            out.push(records[i].duplicate());
            proof {
                assert(records_view(out@) =~= records_view(before).push(records@[i as int]@));
            }
        }
        i = i + 1;
    }
    proof {
        assert(rs.take(i as int) =~= rs);
    }
    out
}

/// The base ids of `records`, each once, in the order of first appearance.
fn distinct_ids(records: &Vec<FileRecord>) -> (r: Vec<String>)
    ensures
        strings_view(r@) == first_ids(records_view(records@)),
{
    let ghost rs = records_view(records@);
    let mut ids: Vec<String> = Vec::new();
    let mut i: usize = 0;
    proof {
        assert(rs.take(0) =~= Seq::<FileRecordView>::empty());
        assert(strings_view(ids@) =~= Seq::<Seq<char>>::empty());
    }
    while i < records.len()
        invariant
            rs == records_view(records@),
            i <= records.len(),
            strings_view(ids@) == first_ids(rs.take(i as int)),
        decreases records.len() - i,
    {
        proof {
            assert(rs.take(i + 1).drop_last() =~= rs.take(i as int));
            assert(rs.take(i + 1).last() == records@[i as int]@);
        }
        let id = &records[i].base_id;
        let mut found = false;
        let mut k: usize = 0;
        while k < ids.len()
            invariant
                k <= ids.len(),
                found <==> exists|j: int| 0 <= j < k && ids@[j]@ == id@,
            decreases ids.len() - k,
        {
            if ids[k] == *id {
                found = true;
            }
            k = k + 1;
        }
        proof {
            if found {
                let j = choose|j: int| 0 <= j < k && ids@[j]@ == id@;
                assert(strings_view(ids@)[j] == id@);
            } else {
                assert forall|j: int| 0 <= j < strings_view(ids@).len() implies strings_view(
                    ids@,
                )[j] != id@ by {
                    assert(ids@[j]@ != id@);
                }
            }
        }
        if !found {
            let ghost before = ids@;
            ids.push(id.clone());
            proof {
                assert(strings_view(ids@) =~= strings_view(before).push(id@));
            }
        }
        i = i + 1;
    }
    proof {
        assert(rs.take(i as int) =~= rs);
    }
    ids
}

impl GroupMap {
    /// Groups `records` by base id: one group for each base id, in the order
    /// of first appearance, each holding its records in their order.
    pub fn from_records(records: &Vec<FileRecord>) -> (r: GroupMap)
        ensures
            r@ == grouped(records_view(records@)),
            groups_wf(r@),
    {
        let ghost rs = records_view(records@);
        proof {
            lemma_grouped_wf(rs);
        }
        let ids = distinct_ids(records);
        let mut groups: Vec<Group> = Vec::new();
        let mut g: usize = 0;
        proof {
            assert(groups_view(groups@) =~= grouped(rs).take(0));
        }
        while g < ids.len()
            invariant
                rs == records_view(records@),
                strings_view(ids@) == first_ids(rs),
                g <= ids.len(),
                groups_view(groups@) == grouped(rs).take(g as int),
            decreases ids.len() - g,
        {
            let files = members(records, &ids[g]);
            let ghost before = groups@;
            proof {
                assert(grouped(rs).len() == ids@.len());
                assert(groups_view(before).len() == g);
            }
            groups.push(Group { base_id: ids[g].clone(), files });
            proof {
                assert(strings_view(ids@)[g as int] == ids@[g as int]@);
                assert(groups@.len() == g + 1);
                assert(groups@[g as int]@ == grouped(rs)[g as int]);
                assert(groups_view(groups@) =~= grouped(rs).take(g + 1));
            }
            g = g + 1;
        }
        proof {
            assert(grouped(rs).take(g as int) =~= grouped(rs));
        }
        GroupMap { groups }
    }

    /// Number of groups.
    pub fn len(&self) -> (r: usize)
        ensures
            r == self@.len(),
    {
        self.groups.len()
    }
}

// ---------------------------------------------------------------------------
// Flagging suspicious groups
// ---------------------------------------------------------------------------

/// Some record's extension differs from the first record's, so not all
/// extensions of the group are the same.
pub open spec fn extensions_differ(files: Seq<FileRecordView>) -> bool {
    exists|i: int| 0 <= i < files.len() && (#[trigger] files[i]).extension != files[0].extension
}

/// Some record has a serial marker and some record has none.
pub open spec fn serials_mixed(files: Seq<FileRecordView>) -> bool {
    &&& exists|i: int| 0 <= i < files.len() && files[i].serial_marker is Some
    &&& exists|j: int| 0 <= j < files.len() && files[j].serial_marker is None
}

/// A group is suspicious when its records disagree on extension or mix
/// records with and without a serial marker.
pub open spec fn suspicious(files: Seq<FileRecordView>) -> bool {
    extensions_differ(files) || serials_mixed(files)
}

/// The suspicious groups of `gs`, in their order.
pub open spec fn suspicious_of(gs: Seq<(Seq<char>, Seq<FileRecordView>)>) -> Seq<
    (Seq<char>, Seq<FileRecordView>),
>
    decreases gs.len(),
{
    if gs.len() == 0 {
        seq![]
    } else {
        let rest = suspicious_of(gs.drop_last());
        if suspicious(gs.last().1) {
            rest.push(gs.last())
        } else {
            rest
        }
    }
}

impl Group {
    /// Whether not all records of the group have the same extension.
    pub fn has_mixed_extensions(&self) -> (r: bool)
        ensures
            r == extensions_differ(self@.1),
    {
        let ghost fs = self@.1;
        let mut i: usize = 0;
        while i < self.files.len()
            invariant
                fs == records_view(self.files@),
                i <= self.files.len(),
                forall|j: int| 0 <= j < i ==> (#[trigger] fs[j]).extension == fs[0].extension,
            decreases self.files.len() - i,
        {
            proof {
                assert(fs[i as int] == self.files@[i as int]@);
                assert(fs[0] == self.files@[0]@);
            }
            if self.files[i].extension != self.files[0].extension {
                return true;
            }
            i = i + 1;
        }
        false
    }

    /// Whether the group holds both records with a serial marker and records
    /// without one.
    pub fn has_mixed_serials(&self) -> (r: bool)
        ensures
            r == serials_mixed(self@.1),
    {
        let ghost fs = self@.1;
        let mut with: bool = false;
        let mut without: bool = false;
        let mut i: usize = 0;
        while i < self.files.len()
            invariant
                fs == records_view(self.files@),
                i <= self.files.len(),
                with <==> exists|j: int| 0 <= j < i && fs[j].serial_marker is Some,
                without <==> exists|j: int| 0 <= j < i && fs[j].serial_marker is None,
            decreases self.files.len() - i,
        {
            proof {
                assert(fs[i as int] == self.files@[i as int]@);
            }
            match &self.files[i].serial_marker {
                Some(_) => {
                    with = true;
                },
                None => {
                    without = true;
                },
            }
            i = i + 1;
        }
        with && without
    }

    /// Whether the group is suspicious: its records disagree on extension or
    /// mix records with and without a serial marker.
    pub fn is_suspicious(&self) -> (r: bool)
        ensures
            r == suspicious(self@.1),
    {
        self.has_mixed_extensions() || self.has_mixed_serials()
    }

    /// A copy of the group.
    pub fn duplicate(&self) -> (r: Group)
        ensures
            r@ == self@,
    {
        let mut files: Vec<FileRecord> = Vec::new();
        let mut i: usize = 0;
        while i < self.files.len()
            invariant
                i <= self.files.len(),
                records_view(files@) == records_view(self.files@).take(i as int),
            decreases self.files.len() - i,
        {
            let ghost before = files@;
            files.push(self.files[i].duplicate());
            proof {
                assert(records_view(files@) =~= records_view(before).push(self.files@[i as int]@));
                assert(records_view(files@) =~= records_view(self.files@).take(i + 1));
            }
            i = i + 1;
        }
        proof {
            assert(records_view(self.files@).take(i as int) =~= records_view(self.files@));
        }
        Group { base_id: self.base_id.clone(), files }
    }

    /// The paths of the group's files, in their order.
    pub fn paths(&self) -> (r: Vec<String>)
        ensures
            strings_view(r@) == records_view(self.files@).map_values(
                |f: FileRecordView| f.path,
            ),
    {
        let mut out: Vec<String> = Vec::new();
        let mut i: usize = 0;
        while i < self.files.len()
            invariant
                i <= self.files.len(),
                strings_view(out@) == records_view(self.files@).map_values(
                    |f: FileRecordView| f.path,
                ).take(i as int),
            decreases self.files.len() - i,
        {
            let ghost before = out@;
            out.push(self.files[i].path.clone());
            proof {
                assert(strings_view(out@) =~= strings_view(before).push(self.files@[i as int].path@));
                assert(strings_view(out@) =~= records_view(self.files@).map_values(
                    |f: FileRecordView| f.path,
                ).take(i + 1));
            }
            i = i + 1;
        }
        proof {
            assert(records_view(self.files@).map_values(|f: FileRecordView| f.path).take(
                i as int,
            ) =~= records_view(self.files@).map_values(|f: FileRecordView| f.path));
        }
        out
    }
}

impl GroupMap {
    /// The suspicious groups, in their order.
    pub fn suspicious_groups(&self) -> (r: Vec<Group>)
        ensures
            groups_view(r@) == suspicious_of(self@),
    {
        let ghost gs = self@;
        let mut out: Vec<Group> = Vec::new();
        let mut i: usize = 0;
        proof {
            assert(gs.take(0) =~= Seq::<(Seq<char>, Seq<FileRecordView>)>::empty());
            assert(groups_view(out@) =~= Seq::<(Seq<char>, Seq<FileRecordView>)>::empty());
        }
        while i < self.groups.len()
            invariant
                gs == self@,
                i <= self.groups.len(),
                groups_view(out@) == suspicious_of(gs.take(i as int)),
            decreases self.groups.len() - i,
        {
            proof {
                assert(gs.take(i + 1).drop_last() =~= gs.take(i as int));
                assert(gs.take(i + 1).last() == self.groups@[i as int]@);
            }
            if self.groups[i].is_suspicious() {
                let ghost before = out@;
                out.push(self.groups[i].duplicate());
                proof {
                    assert(groups_view(out@) =~= groups_view(before).push(
                        self.groups@[i as int]@,
                    ));
                }
            }
            i = i + 1;
        }
        proof {
            assert(gs.take(i as int) =~= gs);
        }
        out
    }
}

// ---------------------------------------------------------------------------
// The whole scan
// ---------------------------------------------------------------------------

/// Classifies `paths` under `pattern` and `policy` and groups the records.
pub fn group_files(pattern: &str, paths: &Vec<String>, policy: NonMatchPolicy) -> (r: Result<
    GroupMap,
    ScanError,
>)
    ensures
        match r {
            Ok(m) => scan_spec(pattern@, strings_view(paths@), policy) matches Ok(recs) && m@
                == grouped(recs),
            Err(e) => scan_spec(pattern@, strings_view(paths@), policy) == Err::<
                Seq<FileRecordView>,
                ScanErrorView,
            >(e@),
        },
{
    match classify_all(pattern, paths, policy) {
        Ok(recs) => Ok(GroupMap::from_records(&recs)),
        Err(e) => Err(e),
    }
}

/// Scans `paths` under the naming convention and returns the suspicious
/// groups, in the order in which their base ids first appear.
pub fn find_suspicious(paths: &Vec<String>, policy: NonMatchPolicy) -> (r: Result<
    Vec<Group>,
    ScanError,
>)
    ensures
        match r {
            Ok(gs) => scan_spec(ID_PATTERN@, strings_view(paths@), policy) matches Ok(recs)
                && groups_view(gs@) == suspicious_of(grouped(recs)),
            Err(e) => scan_spec(ID_PATTERN@, strings_view(paths@), policy) == Err::<
                Seq<FileRecordView>,
                ScanErrorView,
            >(e@),
        },
{
    match group_files(ID_PATTERN, paths, policy) {
        Ok(m) => Ok(m.suspicious_groups()),
        Err(e) => Err(e),
    }
}

} // verus!
