use vstd::prelude::*;

use crate::record::{InstalledRecord, InstalledView, PackageRecord, RecordView};

verus! {

/// One step of a transaction: a record to remove, a record to install, or both
/// (an in-place upgrade or downgrade).
pub struct Operation {
    pub remove: Option<InstalledRecord>,
    pub install: Option<PackageRecord>,
}

/// The mathematical value of an [`Operation`].
pub struct OpView {
    pub remove: Option<InstalledView>,
    pub install: Option<RecordView>,
}

impl View for Operation {
    type V = OpView;

    open spec fn view(&self) -> OpView {
        OpView {
            remove: match self.remove {
                Some(r) => Some(r@),
                None => None,
            },
            install: match self.install {
                Some(r) => Some(r@),
                None => None,
            },
        }
    }
}

/// The ordered operations that bring the prefix from its current to its
/// desired state. Operations are addressed by their position.
pub struct Transaction {
    pub operations: Vec<Operation>,
}

impl View for Transaction {
    type V = Seq<OpView>;

    open spec fn view(&self) -> Seq<OpView> {
        self.operations@.map_values(|o: Operation| o@)
    }
}

/// Why a transaction could not be computed.
#[derive(Clone, Copy, Debug, PartialEq, Eq, Structural)]
pub enum TransactionError {
    /// Two installed records carry the same package name.
    DuplicateInstalled,
    /// Two desired records carry the same package name.
    DuplicateDesired,
}

pub open spec fn installed_names_unique(s: Seq<InstalledView>) -> bool {
    forall|i: int, j: int| 0 <= i < j < s.len() ==> s[i].record.name != s[j].record.name
}

pub open spec fn desired_names_unique(s: Seq<RecordView>) -> bool {
    forall|i: int, j: int| 0 <= i < j < s.len() ==> s[i].name != s[j].name
}

pub open spec fn desires_name(desired: Seq<RecordView>, name: Seq<char>) -> bool {
    exists|i: int| 0 <= i < desired.len() && desired[i].name == name
}

/// The last installed record with the given name.
pub open spec fn find_installed(current: Seq<InstalledView>, name: Seq<char>) -> Option<int>
    decreases current.len(),
{
    if current.len() == 0 {
        None
    } else if current.last().record.name == name {
        Some(current.len() - 1)
    } else {
        find_installed(current.drop_last(), name)
    }
}

/// One removal for each installed record whose name is not desired, in order.
pub open spec fn removal_ops(current: Seq<InstalledView>, desired: Seq<RecordView>) -> Seq<OpView>
    decreases current.len(),
{
    if current.len() == 0 {
        Seq::empty()
    } else {
        let rest = removal_ops(current.drop_last(), desired);
        if desires_name(desired, current.last().record.name) {
            rest
        } else {
            rest.push(OpView { remove: Some(current.last()), install: None })
        }
    }
}

/// For each desired record in order: a fresh install where no record of that
/// name is installed, nothing where the very same record is installed and not
/// asked to be reinstalled, and otherwise a replacement of the installed one.
pub open spec fn update_ops(
    current: Seq<InstalledView>,
    desired: Seq<RecordView>,
    reinstall: Seq<Seq<char>>,
) -> Seq<OpView>
    decreases desired.len(),
{
    if desired.len() == 0 {
        Seq::empty()
    } else {
        let rest = update_ops(current, desired.drop_last(), reinstall);
        let d = desired.last();
        match find_installed(current, d.name) {
            None => rest.push(OpView { remove: None, install: Some(d) }),
            Some(k) => if current[k].record == d && !reinstall.contains(d.name) {
                rest
            } else {
                rest.push(OpView { remove: Some(current[k]), install: Some(d) })
            },
        }
    }
}

/// The operations of the transaction from `current` to `desired`: removals
/// first, then installs and replacements.
pub open spec fn diff_ops(
    current: Seq<InstalledView>,
    desired: Seq<RecordView>,
    reinstall: Seq<Seq<char>>,
) -> Seq<OpView> {
    removal_ops(current, desired) + update_ops(current, desired, reinstall)
}

proof fn lemma_find_installed(current: Seq<InstalledView>, name: Seq<char>)
    ensures
        match find_installed(current, name) {
            Some(k) => 0 <= k < current.len() && current[k].record.name == name,
            None => forall|i: int| 0 <= i < current.len() ==> current[i].record.name != name,
        },
    decreases current.len(),
{
    if current.len() > 0 {
        let rest = current.drop_last();
        lemma_find_installed(rest, name);
        assert forall|i: int| 0 <= i < rest.len() implies rest[i] == current[i] by {}
    }
}

proof fn lemma_no_removals(current: Seq<InstalledView>, desired: Seq<RecordView>)
    requires
        forall|i: int| 0 <= i < current.len() ==> desires_name(desired, #[trigger] current[i].record.name),
    ensures
        removal_ops(current, desired).len() == 0,
    decreases current.len(),
{
    if current.len() > 0 {
        let rest = current.drop_last();
        assert forall|i: int| 0 <= i < rest.len() implies desires_name(desired, #[trigger] rest[i].record.name) by {
            assert(rest[i] == current[i]);
        }
        lemma_no_removals(rest, desired);
        assert(desires_name(desired, current[current.len() - 1].record.name));
    }
}

proof fn lemma_no_updates(current: Seq<InstalledView>, desired: Seq<RecordView>)
    requires
        installed_names_unique(current),
        forall|j: int| 0 <= j < desired.len() ==> exists|i: int| 0 <= i < current.len() && current[i].record == #[trigger] desired[j],
    ensures
        update_ops(current, desired, Seq::empty()).len() == 0,
    decreases desired.len(),
{
    if desired.len() > 0 {
        let rest = desired.drop_last();
        assert forall|j: int| 0 <= j < rest.len() implies exists|i: int| 0 <= i < current.len() && current[i].record == #[trigger] rest[j] by {
            assert(rest[j] == desired[j]);
        }
        lemma_no_updates(current, rest);
        let d = desired.last();
        assert(desired[desired.len() - 1] == d);
        let i = choose|i: int| 0 <= i < current.len() && current[i].record == d;
        lemma_find_installed(current, d.name);
        let k = find_installed(current, d.name)->0;
        assert(k == i);
    }
}

/// Installing the same desired records again, with the records that the first
/// installation left as the current state and nothing asked to be reinstalled,
/// yields a transaction without operations.
pub proof fn law_second_install_is_empty(current: Seq<InstalledView>, desired: Seq<RecordView>)
    requires
        installed_names_unique(current),
        forall|i: int| 0 <= i < current.len() ==> exists|j: int| 0 <= j < desired.len() && #[trigger] current[i].record == desired[j],
        forall|j: int| 0 <= j < desired.len() ==> exists|i: int| 0 <= i < current.len() && current[i].record == #[trigger] desired[j],
    ensures
        diff_ops(current, desired, Seq::empty()).len() == 0,
{
    assert forall|i: int| 0 <= i < current.len() implies desires_name(desired, #[trigger] current[i].record.name) by {
        let j = choose|j: int| 0 <= j < desired.len() && current[i].record == desired[j];
        assert(desired[j].name == current[i].record.name);
    }
    lemma_no_removals(current, desired);
    lemma_no_updates(current, desired);
}

pub open spec fn strings_view(v: Seq<String>) -> Seq<Seq<char>> {
    v.map_values(|s: String| s@)
}

pub open spec fn installed_view(v: Seq<InstalledRecord>) -> Seq<InstalledView> {
    v.map_values(|r: InstalledRecord| r@)
}

pub open spec fn desired_view(v: Seq<PackageRecord>) -> Seq<RecordView> {
    v.map_values(|r: PackageRecord| r@)
}

fn check_installed_unique(current: &Vec<InstalledRecord>) -> (r: bool)
    ensures
        r == installed_names_unique(installed_view(current@)),
{
    let ghost cv = installed_view(current@);
    let mut i: usize = 0;
    while i < current.len()
        invariant
            cv == installed_view(current@),
            i <= current@.len(),
            forall|a: int, b: int| 0 <= a < b < current@.len() && a < i ==> cv[a].record.name != cv[b].record.name,
        decreases current@.len() - i,
    {
        let mut j: usize = i + 1;
        while j < current.len()
            invariant
                cv == installed_view(current@),
                i < j <= current@.len(),
                i < current@.len(),
                forall|a: int, b: int| 0 <= a < b < current@.len() && a < i ==> cv[a].record.name != cv[b].record.name,
                forall|b: int| i < b < j ==> cv[i as int].record.name != cv[b].record.name,
            decreases current@.len() - j,
        {
            if current[i].record.name == current[j].record.name {
                assert(cv[i as int].record.name == cv[j as int].record.name);
                return false;
            }
            j = j + 1;
        }
        i = i + 1;
    }
    true
}

fn check_desired_unique(desired: &Vec<PackageRecord>) -> (r: bool)
    ensures
        r == desired_names_unique(desired_view(desired@)),
{
    let ghost dv = desired_view(desired@);
    let mut i: usize = 0;
    while i < desired.len()
        invariant
            dv == desired_view(desired@),
            i <= desired@.len(),
            forall|a: int, b: int| 0 <= a < b < desired@.len() && a < i ==> dv[a].name != dv[b].name,
        decreases desired@.len() - i,
    {
        let mut j: usize = i + 1;
        while j < desired.len()
            invariant
                dv == desired_view(desired@),
                i < j <= desired@.len(),
                i < desired@.len(),
                forall|a: int, b: int| 0 <= a < b < desired@.len() && a < i ==> dv[a].name != dv[b].name,
                forall|b: int| i < b < j ==> dv[i as int].name != dv[b].name,
            decreases desired@.len() - j,
        {
            if desired[i].name == desired[j].name {
                assert(dv[i as int].name == dv[j as int].name);
                return false;
            }
            j = j + 1;
        }
        i = i + 1;
    }
    true
}

fn find_desired_name(desired: &Vec<PackageRecord>, name: &String) -> (r: bool)
    ensures
        r == desires_name(desired_view(desired@), name@),
{
    let ghost dv = desired_view(desired@);
    let mut i: usize = 0;
    while i < desired.len()
        invariant
            dv == desired_view(desired@),
            i <= desired@.len(),
            forall|a: int| 0 <= a < i ==> dv[a].name != name@,
        decreases desired@.len() - i,
    {
        if desired[i].name == *name {
            assert(dv[i as int].name == name@);
            return true;
        }
        i = i + 1;
    }
    false
}

fn find_installed_index(current: &Vec<InstalledRecord>, name: &String) -> (r: Option<usize>)
    ensures
        match r {
            Some(k) => find_installed(installed_view(current@), name@) == Some(k as int)
                && k < current@.len(),
            None => find_installed(installed_view(current@), name@) is None,
        },
{
    let ghost cv = installed_view(current@);
    let mut k: usize = current.len();
    assert(cv.take(k as int) =~= cv);
    while k > 0
        invariant
            cv == installed_view(current@),
            k <= current@.len(),
            find_installed(cv, name@) == find_installed(cv.take(k as int), name@),
        decreases k,
    {
        assert(cv.take(k as int).drop_last() =~= cv.take(k - 1));
        if current[k - 1].record.name == *name {
            assert(cv.take(k as int).last() == cv[k - 1]);
            return Some(k - 1);
        }
        assert(cv.take(k as int).last() == cv[k - 1]);
        k = k - 1;
    }
    assert(cv.take(0).len() == 0);
    None
}

fn contains_name(names: &Vec<String>, name: &String) -> (r: bool)
    ensures
        r == strings_view(names@).contains(name@),
{
    let ghost nv = strings_view(names@);
    let mut i: usize = 0;
    while i < names.len()
        invariant
            nv == strings_view(names@),
            i <= names@.len(),
            forall|a: int| 0 <= a < i ==> nv[a] != name@,
        decreases names@.len() - i,
    {
        if names[i] == *name {
            assert(nv[i as int] == name@);
            return true;
        }
        i = i + 1;
    }
    false
}

impl Transaction {
    /// Computes the operations that turn the `current` installed records into
    /// the `desired` ones, replacing the packages named in `reinstall` even
    /// where they are unchanged. Fails when either list names a package twice.
    pub fn from_current_and_desired(
        current: &Vec<InstalledRecord>,
        desired: &Vec<PackageRecord>,
        reinstall: &Vec<String>,
    ) -> (r: Result<Transaction, TransactionError>)
        ensures
            match r {
                Ok(t) => installed_names_unique(installed_view(current@))
                    && desired_names_unique(desired_view(desired@))
                    && t@ == diff_ops(installed_view(current@), desired_view(desired@), strings_view(reinstall@)),
                Err(TransactionError::DuplicateInstalled) => !installed_names_unique(installed_view(current@)),
                Err(TransactionError::DuplicateDesired) => installed_names_unique(installed_view(current@))
                    && !desired_names_unique(desired_view(desired@)),
            },
    {
        if !check_installed_unique(current) {
            return Err(TransactionError::DuplicateInstalled);
        }
        if !check_desired_unique(desired) {
            return Err(TransactionError::DuplicateDesired);
        }
        let ghost cv = installed_view(current@);
        let ghost dv = desired_view(desired@);
        let ghost rv = strings_view(reinstall@);
        let mut ops: Vec<Operation> = Vec::new();
        let mut i: usize = 0;
        while i < current.len()
            invariant
                cv == installed_view(current@),
                dv == desired_view(desired@),
                i <= current@.len(),
                ops@.map_values(|o: Operation| o@) == removal_ops(cv.take(i as int), dv),
            decreases current@.len() - i,
        {
            assert(cv.take(i + 1).drop_last() =~= cv.take(i as int));
            if !find_desired_name(desired, &current[i].record.name) {
                ops.push(Operation { remove: Some(current[i].duplicate()), install: None });
            }
            assert(ops@.map_values(|o: Operation| o@) =~= removal_ops(cv.take(i + 1), dv));
            i = i + 1;
        }
        assert(cv.take(current@.len() as int) =~= cv);
        let ghost removals = removal_ops(cv, dv);
        let mut j: usize = 0;
        while j < desired.len()
            invariant
                cv == installed_view(current@),
                dv == desired_view(desired@),
                rv == strings_view(reinstall@),
                j <= desired@.len(),
                ops@.map_values(|o: Operation| o@) == removals + update_ops(cv, dv.take(j as int), rv),
            decreases desired@.len() - j,
        {
            assert(dv.take(j + 1).drop_last() =~= dv.take(j as int));
            assert(dv.take(j + 1).last() == dv[j as int]);
            let d = &desired[j];
            assert(dv[j as int] == d@);
            let ghost prev = ops@.map_values(|o: Operation| o@);
            match find_installed_index(current, &d.name) {
                None => {
                    let op = Operation { remove: None, install: Some(d.duplicate()) };
                    assert(op@ == OpView { remove: None, install: Some(d@) });
                    ops.push(op);
                    assert(ops@.map_values(|o: Operation| o@) =~= prev.push(op@));
                },
                Some(k) => {
                    assert(cv[k as int] == current@[k as int]@);
                    if !(current[k].record.same_as(d) && !contains_name(reinstall, &d.name)) {
                        let op = Operation { remove: Some(current[k].duplicate()), install: Some(d.duplicate()) };
                        assert(op@ == OpView { remove: Some(cv[k as int]), install: Some(d@) });
                        ops.push(op);
                        assert(ops@.map_values(|o: Operation| o@) =~= prev.push(op@));
                    }
                },
            }
            assert(ops@.map_values(|o: Operation| o@) =~= removals + update_ops(cv, dv.take(j + 1), rv));
            j = j + 1;
        }
        assert(dv.take(desired@.len() as int) =~= dv);
        Ok(Transaction { operations: ops })
    }
}

} // verus!
