//! Planning of a file transfer to a stage.
//!
//! The service answers a staging statement with a description of the stage:
//! where it is, the transient credentials to reach it, and the encryption
//! material for the files. What is sent where, with which material and in
//! which manner, is decided here; the sending itself is the caller's.

use crate::bindings::{base64_decode, base64_standard_decode};
use crate::error::SnowflakeApiError;
use crate::responses::{
    CommandType, EncryptionMaterialVariant, PutGetEncryptionMaterial, PutGetStageInfo,
};
use vstd::prelude::*;

verus! {

/// A local file that a source pattern of the statement matched.
#[derive(Debug)]
pub struct LocalFile {
    pub path: String,
    /// Its size in bytes.
    pub size: u64,
}

/// What the service said about one transfer.
#[derive(Debug)]
pub struct StageTransfer {
    pub command: CommandType,
    pub parallel: usize,
    pub threshold: i64,
    pub auto_compress: bool,
    pub overwrite: bool,
    pub source_compression: String,
    pub stage_info: PutGetStageInfo,
    pub encryption_material: EncryptionMaterialVariant,
}

/// One file of a transfer.
#[derive(Debug)]
pub struct FileTransfer {
    /// The local path to read.
    pub source: String,
    /// The key to write in the bucket.
    pub destination: String,
    /// Whether the file is compressed on its way.
    pub compress: bool,
    /// Whether the file is sent in parts.
    pub multipart: bool,
    /// Whether the key has to be looked up before the file is sent, and the
    /// file not sent where the key is taken: the file may not replace an
    /// object, and a sending in parts cannot refuse to.
    pub probe: bool,
    /// The material its encryption metadata is made of.
    pub material: PutGetEncryptionMaterial,
}

/// A transfer, ready to be carried out file by file.
#[derive(Debug)]
pub struct UploadPlan {
    pub stage: PutGetStageInfo,
    pub bucket: String,
    /// How many transfers may run at once.
    pub parallel: usize,
    /// Whether an object that exists may be replaced.
    pub overwrite: bool,
    pub files: Vec<FileTransfer>,
}

/// The index of the first `/` of `text` at or after `from`; `text.len()` if
/// there is none.
pub open spec fn first_slash(text: Seq<char>, from: int) -> int
    decreases text.len() - from,
{
    if from < 0 || from >= text.len() {
        text.len() as int
    } else if text[from] == '/' {
        from
    } else {
        first_slash(text, from + 1)
    }
}

/// The length of the longest prefix of `text` that ends in `/`; 0 if `text`
/// holds none.
pub open spec fn after_last_slash(text: Seq<char>) -> int
    decreases text.len(),
{
    if text.len() == 0 {
        0
    } else if text.last() == '/' {
        text.len() as int
    } else {
        after_last_slash(text.drop_last())
    }
}

/// The last component of a path: what follows its last `/`, the whole path
/// where it has none.
pub open spec fn file_name_of(path: Seq<char>) -> Seq<char> {
    path.skip(after_last_slash(path))
}

/// Whether a stage location names a bucket: it holds a `/`.
pub open spec fn has_bucket(location: Seq<char>) -> bool {
    first_slash(location, 0) < location.len()
}

/// The bucket of a stage location: what precedes its first `/`.
pub open spec fn bucket_of(location: Seq<char>) -> Seq<char> {
    location.take(first_slash(location, 0))
}

/// The key prefix of a stage location: what follows its first `/`.
pub open spec fn prefix_of(location: Seq<char>) -> Seq<char> {
    location.skip(first_slash(location, 0) + 1)
}

/// Whether the declared compression of the sources leaves room for
/// compressing them: they are declared uncompressed, or nothing is declared
/// and it is left to detection.
pub open spec fn declared_uncompressed(source_compression: Seq<char>) -> bool {
    source_compression == "none"@ || source_compression == "auto_detect"@
}

/// Whether a file of a transfer is compressed on its way.
pub open spec fn compresses(auto_compress: bool, source_compression: Seq<char>) -> bool {
    auto_compress && declared_uncompressed(source_compression)
}

/// Whether a file of `size` bytes is sent in parts.
pub open spec fn sent_in_parts(size: u64, threshold: i64) -> bool {
    size >= threshold
}

/// The material for the file at position `index`: the single material where
/// one was issued for all files, else the one at the same position.
pub open spec fn material_of(variant: EncryptionMaterialVariant, index: int) -> Option<
    PutGetEncryptionMaterial,
> {
    match variant {
        EncryptionMaterialVariant::Single(m) => Some(m),
        EncryptionMaterialVariant::Multiple(list) => if 0 <= index < list@.len() {
            Some(list@[index])
        } else {
            None
        },
    }
}

impl PutGetStageInfo {
    /// The location of the stage.
    pub open spec fn spec_location(&self) -> String {
        match self {
            PutGetStageInfo::Aws(info) => info.location,
            PutGetStageInfo::Azure(info) => info.location,
            PutGetStageInfo::Gcs(info) => info.location,
        }
    }

    /// The location of the stage: a bucket, a `/`, and a key prefix.
    pub fn location(&self) -> (r: &String)
        ensures
            *r == self.spec_location(),
    {
        match self {
            PutGetStageInfo::Aws(info) => &info.location,
            PutGetStageInfo::Azure(info) => &info.location,
            PutGetStageInfo::Gcs(info) => &info.location,
        }
    }

    /// The tag of the provider that holds the stage.
    pub fn provider(&self) -> (tag: &'static str)
        ensures
            tag@ == match self {
                PutGetStageInfo::Aws(_) => "aws"@,
                PutGetStageInfo::Azure(_) => "azure"@,
                PutGetStageInfo::Gcs(_) => "gcs"@,
            },
    {
        match self {
            PutGetStageInfo::Aws(_) => "aws",
            PutGetStageInfo::Azure(_) => "azure",
            PutGetStageInfo::Gcs(_) => "gcs",
        }
    }
}

impl PutGetEncryptionMaterial {
    /// A copy of the material.
    pub fn duplicate(&self) -> (r: Self)
        ensures
            r == *self,
    {
        PutGetEncryptionMaterial {
            query_stage_master_key: self.query_stage_master_key.clone(),
            query_id: self.query_id.clone(),
            smk_id: self.smk_id,
        }
    }
}

impl PutGetEncryptionMaterial {
    /// The length of the key in bytes: the key is written in base64.
    pub fn key_len(&self) -> (r: Result<usize, base64::DecodeError>)
        ensures
            match base64_standard_decode(self.query_stage_master_key@) {
                Ok(key) => r == Ok::<usize, base64::DecodeError>(key.len() as usize),
                Err(e) => r == Err::<usize, base64::DecodeError>(e),
            },
    {
        match base64_decode(self.query_stage_master_key.as_str()) {
            Ok(key) => Ok(key.len()),
            Err(e) => Err(e),
        }
    }
}

impl EncryptionMaterialVariant {
    /// The material for the file at position `index` of a transfer.
    pub fn material_for(&self, index: usize) -> (r: Option<PutGetEncryptionMaterial>)
        ensures
            r == material_of(*self, index as int),
    {
        match self {
            EncryptionMaterialVariant::Single(m) => Some(m.duplicate()),
            EncryptionMaterialVariant::Multiple(list) => {
                if index < list.len() {
                    Some(list[index].duplicate())
                } else {
                    None
                }
            },
        }
    }
}

/// Where `text` has no `/` from `from` on, `first_slash` is its length; and
/// the first `/` found is the first there is.
pub proof fn lemma_first_slash(text: Seq<char>, from: int, at: int)
    requires
        0 <= from <= at <= text.len(),
        forall|k: int| from <= k < at ==> text[k] != '/',
        at < text.len() ==> text[at] == '/',
    ensures
        first_slash(text, from) == at,
    decreases at - from,
{
    if from < at {
        lemma_first_slash(text, from + 1, at);
    }
}

/// Where `text` has no `/` from `at` on and one just before `at`, or `at` is
/// 0, the longest prefix ending in `/` has length `at`.
pub proof fn lemma_after_last_slash(text: Seq<char>, at: int)
    requires
        0 <= at <= text.len(),
        forall|k: int| at <= k < text.len() ==> text[k] != '/',
        at > 0 ==> text[at - 1] == '/',
    ensures
        after_last_slash(text) == at,
    decreases text.len(),
{
    if text.len() > at {
        lemma_after_last_slash(text.drop_last(), at);
    }
}

/// The last component of a local path, where it has one.
pub fn file_name(path: &str) -> (r: Option<String>)
    ensures
        match r {
            Some(name) => name@ == file_name_of(path@) && name@.len() > 0,
            None => file_name_of(path@).len() == 0,
        },
{
    let n = path.unicode_len();
    let mut i: usize = n;
    while i > 0 && path.get_char(i - 1) != '/'
        invariant
            i <= n,
            n == path@.len(),
            forall|k: int| i <= k < n ==> path@[k] != '/',
        decreases i,
    {
        i -= 1;
    }
    proof {
        lemma_after_last_slash(path@, i as int);
    }
    if i == n {
        None
    } else {
        let name = path.substring_char(i, n);
        proof {
            assert(path@.subrange(i as int, n as int) =~= path@.skip(i as int));
        }
        Some(name.to_owned())
    }
}

/// Splits a stage location into its bucket and its key prefix.
pub fn split_location(location: &str) -> (r: Option<(String, String)>)
    ensures
        match r {
            Some((bucket, prefix)) => has_bucket(location@) && bucket@ == bucket_of(location@)
                && prefix@ == prefix_of(location@),
            None => !has_bucket(location@),
        },
{
    let n = location.unicode_len();
    let mut i: usize = 0;
    while i < n && location.get_char(i) != '/'
        invariant
            i <= n,
            n == location@.len(),
            forall|k: int| 0 <= k < i ==> location@[k] != '/',
        decreases n - i,
    {
        i += 1;
    }
    proof {
        lemma_first_slash(location@, 0, i as int);
    }
    if i == n {
        None
    } else {
        let bucket = location.substring_char(0, i);
        let prefix = location.substring_char(i + 1, n);
        proof {
            assert(location@.subrange(0, i as int) =~= location@.take(i as int));
            assert(location@.subrange(i + 1, n as int) =~= location@.skip(i + 1));
        }
        Some((bucket.to_owned(), prefix.to_owned()))
    }
}

/// Whether two texts are the same.
fn same_text(a: &str, b: &str) -> (r: bool)
    ensures
        r == (a@ == b@),
{
    let x = a.to_owned();
    let y = b.to_owned();
    x == y
}

/// Decides whether the files of a transfer are compressed on their way.
pub fn decide_compression(auto_compress: bool, source_compression: &str) -> (r: bool)
    ensures
        r == compresses(auto_compress, source_compression@),
{
    auto_compress && (same_text(source_compression, "none") || same_text(
        source_compression,
        "auto_detect",
    ))
}

/// Decides whether a file of `size` bytes is sent in parts.
pub fn decide_multipart(size: u64, threshold: i64) -> (r: bool)
    ensures
        r == sent_in_parts(size, threshold),
{
    if threshold <= 0 {
        true
    } else {
        size >= threshold as u64
    }
}

/// The first position from `from` up to `to` at which `text` holds `c`;
/// `to` where it holds none there.
pub open spec fn first_in(text: Seq<char>, c: char, from: int, to: int) -> int
    decreases to - from,
{
    if from >= to {
        to
    } else if text[from] == c {
        from
    } else {
        first_in(text, c, from + 1, to)
    }
}

/// The first position from `from` on at which `text` does not hold `c`;
/// its length where it holds nothing else.
pub open spec fn first_other(text: Seq<char>, c: char, from: int) -> int
    decreases text.len() - from,
{
    if from < 0 || from >= text.len() {
        text.len() as int
    } else if text[from] != c {
        from
    } else {
        first_other(text, c, from + 1)
    }
}

/// The pairs of a name and a value that `text` holds from `start` on: the
/// parts between `&`, each split at its first `=`. A part without `=` is no
/// pair.
pub open spec fn pairs_from(text: Seq<char>, start: int) -> Seq<(Seq<char>, Seq<char>)>
    decreases text.len() - start,
{
    if start < 0 || start > text.len() {
        Seq::empty()
    } else {
        let end = first_in(text, '&', start, text.len() as int);
        let equals = first_in(text, '=', start, end);
        let head = if equals < end {
            seq![(text.subrange(start, equals), text.subrange(equals + 1, end))]
        } else {
            Seq::empty()
        };
        if start <= end < text.len() {
            head + pairs_from(text, end + 1)
        } else {
            head
        }
    }
}

/// The pairs of a name and a value that a shared-access token holds, which
/// is a query string: what follows its leading question marks.
pub open spec fn token_pairs(token: Seq<char>) -> Seq<(Seq<char>, Seq<char>)> {
    pairs_from(token, first_other(token, '?', 0))
}

/// What a list of pairs holds.
pub open spec fn pairs_of(list: Seq<(String, String)>) -> Seq<(Seq<char>, Seq<char>)> {
    list.map_values(|p: (String, String)| (p.0@, p.1@))
}

/// Where `text` holds no `c` from `from` up to `at`, and one at `at` or
/// `at` is `to`, the first position of `c` is `at`.
pub proof fn lemma_first_in(text: Seq<char>, c: char, from: int, at: int, to: int)
    requires
        0 <= from <= at <= to <= text.len(),
        forall|k: int| from <= k < at ==> text[k] != c,
        at < to ==> text[at] == c,
    ensures
        first_in(text, c, from, to) == at,
    decreases at - from,
{
    if from < at {
        lemma_first_in(text, c, from + 1, at, to);
    }
}

/// Where `text` holds only `c` from `from` up to `at`, and something else
/// at `at` or `at` is its end, the first position of something else is
/// `at`.
pub proof fn lemma_first_other(text: Seq<char>, c: char, from: int, at: int)
    requires
        0 <= from <= at <= text.len(),
        forall|k: int| from <= k < at ==> text[k] == c,
        at < text.len() ==> text[at] != c,
    ensures
        first_other(text, c, from) == at,
    decreases at - from,
{
    if from < at {
        lemma_first_other(text, c, from + 1, at);
    }
}

/// Finds the first `c` of `text` from `from` up to `to`.
pub fn find_char(text: &str, c: char, from: usize, to: usize) -> (r: usize)
    requires
        from <= to <= text@.len(),
    ensures
        r == first_in(text@, c, from as int, to as int),
        from <= r <= to,
{
    let mut i: usize = from;
    while i < to && text.get_char(i) != c
        invariant
            from <= i <= to <= text@.len(),
            forall|k: int| from <= k < i ==> text@[k] != c,
        decreases to - i,
    {
        i += 1;
    }
    proof {
        lemma_first_in(text@, c, from as int, i as int, to as int);
    }
    i
}

/// Takes a shared-access token apart into its pairs of a name and a value.
pub fn sas_pairs(token: &str) -> (r: Vec<(String, String)>)
    ensures
        pairs_of(r@) == token_pairs(token@),
{
    let n = token.unicode_len();
    let mut start: usize = 0;
    while start < n && token.get_char(start) == '?'
        invariant
            start <= n,
            n == token@.len(),
            forall|k: int| 0 <= k < start ==> token@[k] == '?',
        decreases n - start,
    {
        start += 1;
    }
    proof {
        lemma_first_other(token@, '?', 0, start as int);
    }
    let ghost first = start as int;
    let mut list: Vec<(String, String)> = Vec::new();
    let mut done = false;
    proof {
        assert(pairs_of(list@) + pairs_from(token@, first) =~= pairs_from(token@, first));
    }
    while !done
        invariant
            n == token@.len(),
            start <= n,
            !done ==> pairs_of(list@) + pairs_from(token@, start as int) == pairs_from(
                token@,
                first,
            ),
            done ==> pairs_of(list@) == pairs_from(token@, first),
        decreases n - start + (if done { 0int } else { 1int }),
    {
        let end = find_char(token, '&', start, n);
        let equals = find_char(token, '=', start, end);
        let ghost before = list@;
        if equals < end {
            let name = token.substring_char(start, equals).to_owned();
            let value = token.substring_char(equals + 1, end).to_owned();
            list.push((name, value));
            proof {
                assert(pairs_of(list@) =~= pairs_of(before) + seq![
                    (
                        token@.subrange(start as int, equals as int),
                        token@.subrange(equals + 1, end as int),
                    ),
                ]);
            }
        } else {
            proof {
                assert(pairs_of(list@) + Seq::<(Seq<char>, Seq<char>)>::empty() =~= pairs_of(
                    list@,
                ));
            }
        }
        let ghost head = if equals < end {
            seq![
                (
                    token@.subrange(start as int, equals as int),
                    token@.subrange(equals + 1, end as int),
                ),
            ]
        } else {
            Seq::<(Seq<char>, Seq<char>)>::empty()
        };
        proof {
            assert(pairs_of(list@) =~= pairs_of(before) + head);
            if end < n {
                assert(pairs_from(token@, start as int) == head + pairs_from(token@, end + 1));
                assert(pairs_of(before) + (head + pairs_from(token@, end + 1)) =~= (pairs_of(
                    before,
                ) + head) + pairs_from(token@, end + 1));
            } else {
                assert(pairs_from(token@, start as int) == head);
            }
        }
        if end < n {
            start = end + 1;
        } else {
            done = true;
        }
    }
    list
}

/// Whether the file at position `index` cannot be planned: no name can be
/// taken from its path, or no material was issued for its position.
pub open spec fn file_fails(
    material: EncryptionMaterialVariant,
    files: Seq<LocalFile>,
    index: int,
) -> bool {
    file_name_of(files[index].path@).len() == 0 || material_of(material, index) is None
}

/// The position of the first file at or after `from` that cannot be planned;
/// `files.len()` if every file can.
pub open spec fn first_failure(
    material: EncryptionMaterialVariant,
    files: Seq<LocalFile>,
    from: int,
) -> int
    decreases files.len() - from,
{
    if from < 0 || from >= files.len() {
        files.len() as int
    } else if file_fails(material, files, from) {
        from
    } else {
        first_failure(material, files, from + 1)
    }
}

/// Whether `out` is the plan for the file at position `index`.
pub open spec fn planned_file(
    transfer: StageTransfer,
    files: Seq<LocalFile>,
    index: int,
    out: FileTransfer,
) -> bool {
    &&& out.source == files[index].path
    &&& out.destination@ == prefix_of(transfer.stage_info.spec_location()@) + file_name_of(
        files[index].path@,
    )
    &&& out.compress == compresses(transfer.auto_compress, transfer.source_compression@)
    &&& out.multipart == sent_in_parts(files[index].size, transfer.threshold)
    &&& out.probe == (out.multipart && !transfer.overwrite)
    &&& Some(out.material) == material_of(transfer.encryption_material, index)
}

/// What the capability that is not built is called in the error.
pub open spec fn download_capability() -> Seq<char> {
    "GET"@
}

/// What `plan_upload` returns for a transfer and the files its sources
/// matched.
pub open spec fn plan_outcome(
    transfer: StageTransfer,
    files: Seq<LocalFile>,
    r: Result<UploadPlan, SnowflakeApiError>,
) -> bool {
    let location = transfer.stage_info.spec_location();
    let failing = first_failure(transfer.encryption_material, files, 0);
    if transfer.command is Download {
        r matches Err(SnowflakeApiError::Unimplemented(what)) && what@ == download_capability()
    } else if !has_bucket(location@) {
        r matches Err(SnowflakeApiError::InvalidBucketPath(l)) && l == location
    } else if failing < files.len() {
        if file_name_of(files[failing].path@).len() == 0 {
            r matches Err(SnowflakeApiError::InvalidLocalPath(p)) && p == files[failing].path
        } else {
            r matches Err(SnowflakeApiError::UnexpectedResponse)
        }
    } else {
        &&& r matches Ok(plan)
        &&& plan.stage == transfer.stage_info
        &&& plan.bucket@ == bucket_of(location@)
        &&& plan.parallel == transfer.parallel
        &&& plan.overwrite == transfer.overwrite
        &&& plan.files@.len() == files.len()
        &&& forall|i: int|
            0 <= i < files.len() ==> planned_file(transfer, files, i, #[trigger] plan.files@[i])
    }
}

/// Where no file from `from` up to `at` fails and the one at `at` does, or
/// `at` is the end, the first failure from `from` on is `at`.
pub proof fn lemma_first_failure(
    material: EncryptionMaterialVariant,
    files: Seq<LocalFile>,
    from: int,
    at: int,
)
    requires
        0 <= from <= at <= files.len(),
        forall|k: int| from <= k < at ==> !file_fails(material, files, k),
        at < files.len() ==> file_fails(material, files, at),
    ensures
        first_failure(material, files, from) == at,
    decreases at - from,
{
    if from < at {
        lemma_first_failure(material, files, from + 1, at);
    }
}

/// Plans the transfer of `files`, in their order, to the stage that
/// `transfer` describes.
///
/// A download is refused, as is a location without a bucket. Every file is
/// sent under the key prefix of the location and its own name, with the
/// material issued for its position; the first file without a name or
/// without material fails the whole plan.
pub fn plan_upload(transfer: StageTransfer, files: &Vec<LocalFile>) -> (r: Result<
    UploadPlan,
    SnowflakeApiError,
>)
    ensures
        plan_outcome(transfer, files@, r),
{
    let ghost whole = transfer;
    let StageTransfer {
        command,
        parallel,
        threshold,
        auto_compress,
        overwrite,
        source_compression,
        stage_info,
        encryption_material,
    } = transfer;
    match command {
        CommandType::Download => {
            return Err(SnowflakeApiError::Unimplemented("GET".to_owned()));
        },
        CommandType::Upload => {},
    }
    let (bucket, prefix) = match split_location(stage_info.location().as_str()) {
        Some(parts) => parts,
        None => {
            return Err(SnowflakeApiError::InvalidBucketPath(stage_info.location().clone()));
        },
    };
    let compress = decide_compression(auto_compress, source_compression.as_str());
    let mut planned: Vec<FileTransfer> = Vec::new();
    let mut i: usize = 0;
    while i < files.len()
        invariant
            i <= files@.len(),
            whole == transfer,
            whole.command is Upload,
            whole.stage_info == stage_info,
            whole.encryption_material == encryption_material,
            whole.threshold == threshold,
            whole.overwrite == overwrite,
            whole.auto_compress == auto_compress,
            whole.source_compression == source_compression,
            compress == compresses(auto_compress, source_compression@),
            has_bucket(stage_info.spec_location()@),
            prefix@ == prefix_of(stage_info.spec_location()@),
            planned@.len() == i,
            forall|k: int| 0 <= k < i ==> !file_fails(encryption_material, files@, k),
            forall|k: int| 0 <= k < i ==> planned_file(whole, files@, k, #[trigger] planned@[k]),
        decreases files@.len() - i,
    {
        let file = &files[i];
        let name = match file_name(file.path.as_str()) {
            Some(name) => name,
            None => {
                proof {
                    lemma_first_failure(encryption_material, files@, 0, i as int);
                }
                return Err(SnowflakeApiError::InvalidLocalPath(file.path.clone()));
            },
        };
        let material = match encryption_material.material_for(i) {
            Some(material) => material,
            None => {
                proof {
                    lemma_first_failure(encryption_material, files@, 0, i as int);
                }
                return Err(SnowflakeApiError::UnexpectedResponse);
            },
        };
        let destination = prefix.clone().concat(name.as_str());
        let multipart = decide_multipart(file.size, threshold);
        planned.push(
            FileTransfer {
                source: file.path.clone(),
                destination,
                compress,
                multipart,
                probe: multipart && !overwrite,
                material,
            },
        );
        i += 1;
    }
    proof {
        lemma_first_failure(encryption_material, files@, 0, files@.len() as int);
    }
    Ok(UploadPlan { stage: stage_info, bucket, parallel, overwrite, files: planned })
}

/// A single material is the material of every file of a plan; of several
/// materials, the one at a file's position is the material of that file, and
/// there is one for every file.
pub proof fn law_material_by_position(
    transfer: StageTransfer,
    files: Seq<LocalFile>,
    plan: UploadPlan,
)
    requires
        plan_outcome(transfer, files, Ok(plan)),
    ensures
        plan.files@.len() == files.len(),
        transfer.encryption_material matches EncryptionMaterialVariant::Single(m) ==> forall|
            i: int,
        |
            0 <= i < files.len() ==> (#[trigger] plan.files@[i]).material == m,
        transfer.encryption_material matches EncryptionMaterialVariant::Multiple(list)
            ==> list@.len() >= files.len() && forall|i: int|
            0 <= i < files.len() ==> (#[trigger] plan.files@[i]).material == list@[i],
{
    let material = transfer.encryption_material;
    assert forall|i: int| 0 <= i < files.len() implies material_of(material, i) == Some(
        (#[trigger] plan.files@[i]).material,
    ) by {
        assert(planned_file(transfer, files, i, plan.files@[i]));
    }
    if let EncryptionMaterialVariant::Multiple(list) = material {
        if files.len() > 0 {
            let last = files.len() - 1;
            assert(material_of(material, last) == Some(plan.files@[last].material));
        }
    }
}

/// A transfer for upload whose location names a bucket, with a single
/// material and files that all have a name, can be planned.
pub proof fn law_single_material_plans(
    transfer: StageTransfer,
    files: Seq<LocalFile>,
    r: Result<UploadPlan, SnowflakeApiError>,
)
    requires
        plan_outcome(transfer, files, r),
        transfer.command is Upload,
        has_bucket(transfer.stage_info.spec_location()@),
        transfer.encryption_material is Single,
        forall|i: int| 0 <= i < files.len() ==> file_name_of(#[trigger] files[i].path@).len() > 0,
    ensures
        r is Ok,
{
    lemma_first_failure(transfer.encryption_material, files, 0, files.len() as int);
}

} // verus!
