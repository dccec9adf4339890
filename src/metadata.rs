use vstd::prelude::*;
use vstd::string::StringExecFns;

use crate::record::{InstalledRecord, InstalledView, LinkType, PackageRecord, RecordView};
use crate::transaction::strings_view;

verus! {

/// The name of the metadata record of a package: `{name}-{version}-{build}.json`.
pub open spec fn metadata_name_of(r: RecordView) -> Seq<char> {
    r.name + seq!['-'] + r.version + seq!['-'] + r.build + seq!['.', 'j', 's', 'o', 'n']
}

/// The name of the file, inside the prefix's metadata directory, that holds the
/// metadata record of the package.
pub fn metadata_file_name(record: &PackageRecord) -> (r: String)
    ensures
        r@ == metadata_name_of(record@),
{
    let mut s = record.name.clone();
    s.append("-");
    s.append(record.version.as_str());
    s.append("-");
    s.append(record.build.as_str());
    s.append(".json");
    proof {
        reveal_strlit("-");
        reveal_strlit(".json");
    }
    assert(s@ =~= metadata_name_of(record@));
    s
}

/// The record that is written for a package once its files are linked: the
/// files are exactly the relative paths that linking reported, and the source
/// is the extracted package directory in the cache.
pub open spec fn linked_record_of(r: RecordView, paths: Seq<Seq<char>>, cached_dir: Seq<char>) -> InstalledView {
    InstalledView {
        record: r,
        files: paths,
        source: Some(cached_dir),
        link_type: Some(LinkType::HardLink),
    }
}

/// Builds the metadata record of a package from the paths that linking created.
pub fn linked_record(record: &PackageRecord, paths: Vec<String>, cached_dir: String) -> (r: InstalledRecord)
    ensures
        r@ == linked_record_of(record@, strings_view(paths@), cached_dir@),
{
    InstalledRecord {
        record: record.duplicate(),
        files: paths,
        source: Some(cached_dir),
        link_type: Some(LinkType::HardLink),
    }
}

} // verus!
