use vstd::prelude::*;

verus! {

/// A package that should exist in the prefix after installation.
pub struct PackageRecord {
    /// The normalized package name.
    pub name: String,
    pub version: String,
    pub build: String,
    /// The declared size of the package archive, in bytes.
    pub size: Option<u64>,
    /// The archive's file name, used to identify the package in errors.
    pub file_name: String,
    /// Where the archive is fetched from.
    pub url: String,
}

/// The mathematical value of a [`PackageRecord`].
pub struct RecordView {
    pub name: Seq<char>,
    pub version: Seq<char>,
    pub build: Seq<char>,
    pub size: Option<u64>,
    pub file_name: Seq<char>,
    pub url: Seq<char>,
}

impl View for PackageRecord {
    type V = RecordView;

    open spec fn view(&self) -> RecordView {
        RecordView {
            name: self.name@,
            version: self.version@,
            build: self.build@,
            size: self.size,
            file_name: self.file_name@,
            url: self.url@,
        }
    }
}

/// How the files of an installed package were placed in the prefix.
#[derive(Clone, Copy, Debug, PartialEq, Eq, Structural)]
pub enum LinkType {
    HardLink,
    SoftLink,
    Copy,
    Directory,
}

/// A package that is installed in the prefix, as its metadata record holds it.
pub struct InstalledRecord {
    pub record: PackageRecord,
    /// The paths of the package's files, relative to the prefix.
    pub files: Vec<String>,
    /// The extracted package directory that the files were linked from.
    pub source: Option<String>,
    pub link_type: Option<LinkType>,
}

/// The mathematical value of an [`InstalledRecord`].
pub struct InstalledView {
    pub record: RecordView,
    pub files: Seq<Seq<char>>,
    pub source: Option<Seq<char>>,
    pub link_type: Option<LinkType>,
}

pub open spec fn opt_str_view(s: Option<String>) -> Option<Seq<char>> {
    match s {
        Some(v) => Some(v@),
        None => None,
    }
}

impl View for InstalledRecord {
    type V = InstalledView;

    open spec fn view(&self) -> InstalledView {
        InstalledView {
            record: self.record@,
            files: self.files@.map_values(|f: String| f@),
            source: opt_str_view(self.source),
            link_type: self.link_type,
        }
    }
}

/// The size used to order packages for fetching: a missing size counts as zero.
pub open spec fn size_key(r: RecordView) -> u64 {
    match r.size {
        Some(s) => s,
        None => 0,
    }
}

impl PackageRecord {
    pub fn new(
        name: String,
        version: String,
        build: String,
        size: Option<u64>,
        file_name: String,
        url: String,
    ) -> (r: PackageRecord)
        ensures
            r@ == (RecordView {
                name: name@,
                version: version@,
                build: build@,
                size,
                file_name: file_name@,
                url: url@,
            }),
    {
        PackageRecord { name, version, build, size, file_name, url }
    }

    /// Whether two records describe the same package in every field.
    pub fn same_as(&self, other: &PackageRecord) -> (r: bool)
        ensures
            r == (self@ == other@),
    {
        let sizes_equal = match (self.size, other.size) {
            (Some(a), Some(b)) => a == b,
            (None, None) => true,
            _ => false,
        };
        self.name == other.name && self.version == other.version && self.build == other.build
            && sizes_equal && self.file_name == other.file_name && self.url == other.url
    }

    /// The declared size, zero where none is declared.
    pub fn size_or_zero(&self) -> (r: u64)
        ensures
            r == size_key(self@),
    {
        match self.size {
            Some(s) => s,
            None => 0,
        }
    }

    pub fn duplicate(&self) -> (r: PackageRecord)
        ensures
            r@ == self@,
    {
        PackageRecord {
            name: self.name.clone(),
            version: self.version.clone(),
            build: self.build.clone(),
            size: self.size,
            file_name: self.file_name.clone(),
            url: self.url.clone(),
        }
    }
}

/// A copy of a list of strings, element by element.
pub fn copy_strings(v: &Vec<String>) -> (r: Vec<String>)
    ensures
        r@.map_values(|f: String| f@) == v@.map_values(|f: String| f@),
{
    let mut r: Vec<String> = Vec::new();
    let mut i: usize = 0;
    while i < v.len()
        invariant
            i <= v@.len(),
            r@.len() == i,
            forall|k: int| 0 <= k < i ==> (#[trigger] r@[k])@ == v@[k]@,
        decreases v@.len() - i,
    {
        r.push(v[i].clone());
        i = i + 1;
    }
    assert(r@.map_values(|f: String| f@) =~= v@.map_values(|f: String| f@));
    r
}

fn same_strings(a: &Vec<String>, b: &Vec<String>) -> (r: bool)
    ensures
        r == (a@.map_values(|f: String| f@) == b@.map_values(|f: String| f@)),
{
    let ghost av = a@.map_values(|f: String| f@);
    let ghost bv = b@.map_values(|f: String| f@);
    if a.len() != b.len() {
        assert(av.len() != bv.len());
        return false;
    }
    let mut i: usize = 0;
    while i < a.len()
        invariant
            av == a@.map_values(|f: String| f@),
            bv == b@.map_values(|f: String| f@),
            a@.len() == b@.len(),
            i <= a@.len(),
            forall|k: int| 0 <= k < i ==> av[k] == bv[k],
        decreases a@.len() - i,
    {
        if a[i] != b[i] {
            assert(av[i as int] != bv[i as int]);
            return false;
        }
        i = i + 1;
    }
    assert(av =~= bv);
    true
}

impl InstalledRecord {
    /// Whether two installed records are equal in every field.
    pub fn same_as(&self, other: &InstalledRecord) -> (r: bool)
        ensures
            r == (self@ == other@),
    {
        let same_source = match (&self.source, &other.source) {
            (Some(a), Some(b)) => *a == *b,
            (None, None) => true,
            _ => false,
        };
        let same_link = match (self.link_type, other.link_type) {
            (Some(a), Some(b)) => a == b,
            (None, None) => true,
            _ => false,
        };
        self.record.same_as(&other.record) && same_strings(&self.files, &other.files) && same_source
            && same_link
    }

    pub fn duplicate(&self) -> (r: InstalledRecord)
        ensures
            r@ == self@,
    {
        let source = match &self.source {
            Some(s) => Some(s.clone()),
            None => None,
        };
        InstalledRecord {
            record: self.record.duplicate(),
            files: copy_strings(&self.files),
            source,
            link_type: self.link_type,
        }
    }
}

} // verus!
