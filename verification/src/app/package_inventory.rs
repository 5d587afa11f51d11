use vstd::prelude::*;
use crate::domain::policy::{ManagedApp, ProtectedReason};
use crate::text::chars::{chars_of, copy_range, push_chars, str_eq, string_of};
use crate::text::format::decimal;
use crate::text::num::{parse_u32, parse_u32_chars};
use crate::text::scan::{find, find_chars, starts_with, starts_with_chars, trim, trimmed};
use crate::text::split::{lines, split_lines, views};

verus! {

/// A package as the package manager lists it.
#[derive(Debug, Clone, PartialEq, Eq)]
pub struct PackageRecord {
    pub package_name: String,
    pub user_id: u32,
    pub uid: u32,
    pub label: String,
    pub is_system_app: bool,
}

/// The packages that hold a device role and are therefore protected.
#[derive(Debug, Clone, PartialEq, Eq)]
pub struct ProtectedPackageContext {
    pub launcher_packages: Vec<String>,
    pub input_method_packages: Vec<String>,
    pub root_manager_packages: Vec<String>,
    pub hook_manager_packages: Vec<String>,
}

impl Default for ProtectedPackageContext {
    /// No package holds a device role.
    fn default() -> (c: Self)
        ensures
            c.launcher_packages@.len() == 0,
            c.input_method_packages@.len() == 0,
            c.root_manager_packages@.len() == 0,
            c.hook_manager_packages@.len() == 0,
    {
        ProtectedPackageContext {
            launcher_packages: Vec::new(),
            input_method_packages: Vec::new(),
            root_manager_packages: Vec::new(),
            hook_manager_packages: Vec::new(),
        }
    }
}

/// The package name and uid of one line of `cmd package list packages -U`
/// output (`package:<name> uid:<uid>` around white space), if the line has
/// that form.
pub open spec fn package_line(line: Seq<char>) -> Option<(Seq<char>, u32)> {
    let t = trim(line);
    if starts_with(t, "package:"@) {
        let rest = t.skip(8);
        match find(rest, " uid:"@) {
            Some(k) => match parse_u32(rest.skip(k + 5)) {
                Some(uid) => Some((rest.take(k), uid)),
                None => None,
            },
            None => None,
        }
    } else {
        None
    }
}

/// The packages listed in the lines, in order, skipping lines of another
/// form.
pub open spec fn listed_packages(ls: Seq<Seq<char>>) -> Seq<(Seq<char>, u32)>
    decreases ls.len(),
{
    if ls.len() == 0 {
        Seq::empty()
    } else {
        let rest = listed_packages(ls.drop_last());
        match package_line(ls.last()) {
            Some(p) => rest.push(p),
            None => rest,
        }
    }
}

/// A package record for a listed package: user 0, labelled by its name, not
/// a system app.
pub open spec fn is_listed_record(r: PackageRecord, p: (Seq<char>, u32)) -> bool {
    &&& r.package_name@ == p.0
    &&& r.user_id == 0
    &&& r.uid == p.1
    &&& r.label@ == p.0
    &&& !r.is_system_app
}

fn parse_package_line(line: &[char]) -> (r: Option<PackageRecord>)
    ensures
        package_line(line@) is None ==> r is None,
        package_line(line@) matches Some(p) ==> (r matches Some(rec) && is_listed_record(rec, p)),
{
    let t = trimmed(line);
    let prefix = chars_of("package:");
    proof {
        reveal_strlit("package:");
        reveal_strlit(" uid:");
    }
    if !starts_with_chars(t.as_slice(), prefix.as_slice()) {
        return None;
    }
    let rest = copy_range(t.as_slice(), 8, t.len());
    assert(rest@ == trim(line@).skip(8));
    let marker = chars_of(" uid:");
    match find_chars(rest.as_slice(), marker.as_slice()) {
        Some(k) => {
            proof {
                crate::text::scan::lemma_find(rest@, marker@);
            }
            let uid_text = copy_range(rest.as_slice(), k + 5, rest.len());
            assert(uid_text@ == rest@.skip(k + 5));
            match parse_u32_chars(uid_text.as_slice()) {
                Some(uid) => {
                    let name = string_of(copy_range(rest.as_slice(), 0, k).as_slice());
                    assert(name@ == rest@.take(k as int));
                    let label = name.clone();
                    Some(PackageRecord { package_name: name, user_id: 0, uid, label, is_system_app: false })
                },
                None => None,
            }
        },
        None => None,
    }
}

/// Reads `cmd package list packages -U` output: one record per line of the
/// form `package:<name> uid:<uid>`, other lines skipped.
pub fn parse_cmd_package_list(output: &str) -> (records: Vec<PackageRecord>)
    ensures
        records@.len() == listed_packages(lines(output@)).len(),
        forall|i: int|
            0 <= i < records@.len() ==> is_listed_record(
                #[trigger] records@[i],
                listed_packages(lines(output@))[i],
            ),
{
    let cs = chars_of(output);
    let ls = split_lines(cs.as_slice());
    let ghost lv = views(ls@);
    let mut records: Vec<PackageRecord> = Vec::new();
    let mut i: usize = 0;
    while i < ls.len()
        invariant
            i <= ls@.len(),
            lv == views(ls@),
            lv == lines(output@),
            records@.len() == listed_packages(lv.take(i as int)).len(),
            forall|j: int|
                0 <= j < records@.len() ==> is_listed_record(
                    #[trigger] records@[j],
                    listed_packages(lv.take(i as int))[j],
                ),
        decreases ls@.len() - i,
    {
        let ghost prev = listed_packages(lv.take(i as int));
        proof {
            assert(lv.take(i + 1).drop_last() == lv.take(i as int));
            assert(lv.take(i + 1).last() == ls@[i as int]@);
        }
        match parse_package_line(ls[i].as_slice()) {
            Some(record) => {
                records.push(record);
            },
            None => {},
        }
        i = i + 1;
    }
    assert(lv.take(ls@.len() as int) == lv);
    records
}

/// Whether a name is one of the listed packages.
pub open spec fn is_listed(list: Seq<String>, name: Seq<char>) -> bool {
    exists|i: int| 0 <= i < list.len() && (#[trigger] list[i])@ == name
}

fn listed(list: &Vec<String>, name: &str) -> (r: bool)
    ensures
        r == is_listed(list@, name@),
{
    let mut i: usize = 0;
    while i < list.len()
        invariant
            i <= list@.len(),
            forall|j: int| 0 <= j < i ==> (#[trigger] list@[j])@ != name@,
        decreases list@.len() - i,
    {
        if str_eq(list[i].as_str(), name) {
            return true;
        }
        i = i + 1;
    }
    false
}

/// Why a package is protected: a device role from the context first, then
/// the manager, root and hook managers and the critical system packages by
/// name, then any other system app.
pub open spec fn protection_reason(
    name: Seq<char>,
    is_system_app: bool,
    context: ProtectedPackageContext,
) -> Option<ProtectedReason> {
    if is_listed(context.launcher_packages@, name) {
        Some(ProtectedReason::Launcher)
    } else if is_listed(context.input_method_packages@, name) {
        Some(ProtectedReason::InputMethod)
    } else if is_listed(context.root_manager_packages@, name) {
        Some(ProtectedReason::RootManager)
    } else if is_listed(context.hook_manager_packages@, name) {
        Some(ProtectedReason::HookManager)
    } else {
        default_protection(name, is_system_app)
    }
}

/// Why a package is protected by its name alone: the manager, the root and
/// hook managers and the critical system packages, then any other system
/// app.
pub open spec fn default_protection(name: Seq<char>, is_system_app: bool) -> Option<ProtectedReason> {
    if name == "io.github.jark006.freezeit"@ {
        Some(ProtectedReason::Manager)
    } else if name == "com.topjohnwu.magisk"@ || name == "io.github.huskydg.magisk"@ {
        Some(ProtectedReason::RootManager)
    } else if name == "org.lsposed.manager"@ || name == "io.github.lsposed.manager"@ {
        Some(ProtectedReason::HookManager)
    } else if name == "android"@ || name == "com.android.systemui"@ || name == "com.android.phone"@ {
        Some(ProtectedReason::SystemCritical)
    } else if is_system_app {
        Some(ProtectedReason::SystemCritical)
    } else {
        None
    }
}

/// A package that holds a device role is protected for the first role it
/// holds, in the order launcher, input method, root manager, hook manager;
/// otherwise the freezeit manager, the known root and hook managers and the
/// critical system packages are protected by name, any other system app as
/// system critical, and any other app not at all.
pub proof fn law_protection(name: Seq<char>, is_system_app: bool, context: ProtectedPackageContext)
    ensures
        (exists|i: int|
            0 <= i < context.launcher_packages@.len() && (#[trigger] context.launcher_packages@[i])@
                == name) ==> protection_reason(name, is_system_app, context) == Some(
            ProtectedReason::Launcher,
        ),
        !is_listed(context.launcher_packages@, name) && (exists|i: int|
            0 <= i < context.input_method_packages@.len()
                && (#[trigger] context.input_method_packages@[i])@ == name) ==> protection_reason(
            name,
            is_system_app,
            context,
        ) == Some(ProtectedReason::InputMethod),
        !is_listed(context.launcher_packages@, name) && !is_listed(
            context.input_method_packages@,
            name,
        ) && (exists|i: int|
            0 <= i < context.root_manager_packages@.len()
                && (#[trigger] context.root_manager_packages@[i])@ == name) ==> protection_reason(
            name,
            is_system_app,
            context,
        ) == Some(ProtectedReason::RootManager),
        !is_listed(context.launcher_packages@, name) && !is_listed(
            context.input_method_packages@,
            name,
        ) && !is_listed(context.root_manager_packages@, name) && (exists|i: int|
            0 <= i < context.hook_manager_packages@.len()
                && (#[trigger] context.hook_manager_packages@[i])@ == name) ==> protection_reason(
            name,
            is_system_app,
            context,
        ) == Some(ProtectedReason::HookManager),
        default_protection("io.github.jark006.freezeit"@, is_system_app) == Some(
            ProtectedReason::Manager,
        ),
        default_protection("com.topjohnwu.magisk"@, is_system_app) == Some(
            ProtectedReason::RootManager,
        ),
        default_protection("io.github.huskydg.magisk"@, is_system_app) == Some(
            ProtectedReason::RootManager,
        ),
        default_protection("org.lsposed.manager"@, is_system_app) == Some(
            ProtectedReason::HookManager,
        ),
        default_protection("io.github.lsposed.manager"@, is_system_app) == Some(
            ProtectedReason::HookManager,
        ),
        default_protection("android"@, is_system_app) == Some(ProtectedReason::SystemCritical),
        default_protection("com.android.systemui"@, is_system_app) == Some(
            ProtectedReason::SystemCritical,
        ),
        default_protection("com.android.phone"@, is_system_app) == Some(
            ProtectedReason::SystemCritical,
        ),
        is_system_app ==> default_protection(name, is_system_app) is Some,
        !is_system_app && name != "io.github.jark006.freezeit"@ && name != "com.topjohnwu.magisk"@
            && name != "io.github.huskydg.magisk"@ && name != "org.lsposed.manager"@ && name
            != "io.github.lsposed.manager"@ && name != "android"@ && name
            != "com.android.systemui"@ && name != "com.android.phone"@ ==> default_protection(
            name,
            is_system_app,
        ) is None,
        !is_listed(context.launcher_packages@, name) && !is_listed(
            context.input_method_packages@,
            name,
        ) && !is_listed(context.root_manager_packages@, name) && !is_listed(
            context.hook_manager_packages@,
            name,
        ) ==> protection_reason(name, is_system_app, context) == default_protection(
            name,
            is_system_app,
        ),
{
    reveal_strlit("io.github.jark006.freezeit");
    reveal_strlit("com.topjohnwu.magisk");
    reveal_strlit("io.github.huskydg.magisk");
    reveal_strlit("org.lsposed.manager");
    reveal_strlit("io.github.lsposed.manager");
    reveal_strlit("android");
    reveal_strlit("com.android.systemui");
    reveal_strlit("com.android.phone");
    assert("io.github.jark006.freezeit"@.len() == 26);
    assert("com.topjohnwu.magisk"@.len() == 20);
    assert("io.github.huskydg.magisk"@.len() == 24);
    assert("org.lsposed.manager"@.len() == 19);
    assert("io.github.lsposed.manager"@.len() == 25);
    assert("android"@.len() == 7);
    assert("com.android.systemui"@.len() == 20);
    assert("com.android.phone"@.len() == 17);
    assert("com.android.systemui"@[4] != "com.topjohnwu.magisk"@[4]);
}

/// Why a package is protected when no package holds a device role.
pub fn protected_reason_for(package_name: &str, is_system_app: bool) -> (r: Option<ProtectedReason>)
    ensures
        r == default_protection(package_name@, is_system_app),
{
    let context = ProtectedPackageContext::default();
    protected_reason_for_with_context(package_name, is_system_app, &context)
}

/// Why a package is protected, given the packages that hold device roles.
pub fn protected_reason_for_with_context(
    package_name: &str,
    is_system_app: bool,
    context: &ProtectedPackageContext,
) -> (r: Option<ProtectedReason>)
    ensures
        r == protection_reason(package_name@, is_system_app, *context),
{
    if listed(&context.launcher_packages, package_name) {
        return Some(ProtectedReason::Launcher);
    }
    if listed(&context.input_method_packages, package_name) {
        return Some(ProtectedReason::InputMethod);
    }
    if listed(&context.root_manager_packages, package_name) {
        return Some(ProtectedReason::RootManager);
    }
    if listed(&context.hook_manager_packages, package_name) {
        return Some(ProtectedReason::HookManager);
    }
    if str_eq(package_name, "io.github.jark006.freezeit") {
        Some(ProtectedReason::Manager)
    } else if str_eq(package_name, "com.topjohnwu.magisk") || str_eq(
        package_name,
        "io.github.huskydg.magisk",
    ) {
        Some(ProtectedReason::RootManager)
    } else if str_eq(package_name, "org.lsposed.manager") || str_eq(
        package_name,
        "io.github.lsposed.manager",
    ) {
        Some(ProtectedReason::HookManager)
    } else if str_eq(package_name, "android") || str_eq(package_name, "com.android.systemui")
        || str_eq(package_name, "com.android.phone") {
        Some(ProtectedReason::SystemCritical)
    } else if is_system_app {
        Some(ProtectedReason::SystemCritical)
    } else {
        None
    }
}

/// A system app is always protected, whatever its name and the context.
pub proof fn lemma_system_apps_are_protected(
    name: Seq<char>,
    context: ProtectedPackageContext,
)
    ensures
        protection_reason(name, true, context) is Some,
{
}

/// What checking a stored app against the current package listing gives.
pub open spec fn reconcile_result(app: ManagedApp, current: PackageRecord) -> Result<(), Seq<char>> {
    if app.package_name@ != current.package_name@ || app.user_id != current.user_id {
        Err("package identity mismatch"@)
    } else if app.uid != current.uid {
        Err("uid changed; package inventory reconciliation required"@)
    } else {
        Ok(())
    }
}

/// Checks a stored app against the current package listing: the identity
/// must match, and so must the uid.
pub fn reconcile_uid(app: &ManagedApp, current: &PackageRecord) -> (r: Result<(), String>)
    ensures
        r is Ok <==> reconcile_result(*app, *current) is Ok,
        r matches Err(m) ==> reconcile_result(*app, *current) == Err::<(), Seq<char>>(m@),
{
    if !(app.package_name == current.package_name) || app.user_id != current.user_id {
        return Err("package identity mismatch".to_owned());
    }
    if app.uid != current.uid {
        return Err("uid changed; package inventory reconciliation required".to_owned());
    }
    Ok(())
}

/// The key of an app in the inventory: package name and user.
pub open spec fn app_key(app: ManagedApp) -> (Seq<char>, u32) {
    (app.package_name@, app.user_id)
}

/// The key of a package record.
pub open spec fn record_key(r: PackageRecord) -> (Seq<char>, u32) {
    (r.package_name@, r.user_id)
}

/// The managed apps keyed by package name and user, as built from the
/// package listing.
#[derive(Debug, PartialEq, Eq)]
pub struct AppInventory {
    apps: Vec<ManagedApp>,
}

impl AppInventory {
    #[verifier::type_invariant]
    spec fn distinct(self) -> bool {
        forall|i: int, j: int| 0 <= i < j < self.apps@.len() ==> app_key(self.apps@[i]) != app_key(
            self.apps@[j],
        )
    }

    /// The apps by key.
    pub closed spec fn view(&self) -> Map<(Seq<char>, u32), ManagedApp> {
        Map::new(
            |k: (Seq<char>, u32)| exists|i: int| 0 <= i < self.apps@.len() && app_key(self.apps@[i]) == k,
            |k: (Seq<char>, u32)|
                self.apps@[choose|i: int| 0 <= i < self.apps@.len() && app_key(self.apps@[i]) == k],
        )
    }

    proof fn lemma_at(&self, i: int)
        requires
            forall|a: int, b: int| 0 <= a < b < self.apps@.len() ==> app_key(self.apps@[a]) != app_key(
                self.apps@[b],
            ),
            0 <= i < self.apps@.len(),
        ensures
            self.view().contains_key(app_key(self.apps@[i])),
            self.view()[app_key(self.apps@[i])] == self.apps@[i],
    {
        let k = app_key(self.apps@[i]);
        assert(self.view().dom().contains(k));
        let j = choose|j: int| 0 <= j < self.apps@.len() && app_key(self.apps@[j]) == k;
        if j < i {
            assert(app_key(self.apps@[j]) != app_key(self.apps@[i]));
        }
        if i < j {
            assert(app_key(self.apps@[i]) != app_key(self.apps@[j]));
        }
    }

    fn empty() -> (inv: Self)
        ensures
            inv.view() == Map::<(Seq<char>, u32), ManagedApp>::empty(),
    {
        let inv = AppInventory { apps: Vec::new() };
        assert(inv.view() =~= Map::empty());
        inv
    }

    fn find(&self, package_name: &String, user_id: u32) -> (r: Option<usize>)
        ensures
            r matches Some(i) ==> i < self.apps@.len() && app_key(self.apps@[i as int]) == (
            package_name@, user_id),
            r is None ==> !self.view().contains_key((package_name@, user_id)),
    {
        let mut i: usize = 0;
        while i < self.apps.len()
            invariant
                i <= self.apps@.len(),
                forall|j: int| 0 <= j < i ==> app_key(#[trigger] self.apps@[j]) != (package_name@, user_id),
            decreases self.apps@.len() - i,
        {
            if self.apps[i].user_id == user_id && self.apps[i].package_name == *package_name {
                return Some(i);
            }
            i = i + 1;
        }
        None
    }

    /// The app stored under the key, if any.
    pub fn get(&self, key: &(String, u32)) -> (r: Option<&ManagedApp>)
        ensures
            r is Some <==> self.view().contains_key((key.0@, key.1)),
            r matches Some(app) ==> *app == self.view()[(key.0@, key.1)],
    {
        proof {
            use_type_invariant(self);
        }
        match self.find(&key.0, key.1) {
            Some(i) => {
                proof {
                    self.lemma_at(i as int);
                }
                Some(&self.apps[i])
            },
            None => None,
        }
    }

    /// The number of apps.
    pub fn len(&self) -> (n: usize)
        ensures
            n == self.view().dom().len(),
    {
        proof {
            use_type_invariant(self);
            let f = |app: ManagedApp| app_key(app);
            let ks = self.apps@.map_values(f);
            assert(ks.no_duplicates()) by {
                assert forall|a: int, b: int| 0 <= a < ks.len() && 0 <= b < ks.len() && a != b implies ks[a] != ks[b] by {
                    if a < b {
                        assert(app_key(self.apps@[a]) != app_key(self.apps@[b]));
                    } else {
                        assert(app_key(self.apps@[b]) != app_key(self.apps@[a]));
                    }
                }
            }
            assert(self.view().dom() =~= ks.to_set()) by {
                assert forall|k: (Seq<char>, u32)| self.view().dom().contains(k) implies ks.to_set().contains(k) by {
                    let i = choose|i: int| 0 <= i < self.apps@.len() && app_key(self.apps@[i]) == k;
                    assert(ks[i] == k);
                }
                assert forall|k: (Seq<char>, u32)| ks.to_set().contains(k) implies self.view().dom().contains(k) by {
                    let i = choose|i: int| 0 <= i < ks.len() && ks[i] == k;
                    assert(app_key(self.apps@[i]) == k);
                }
            }
            ks.unique_seq_to_set();
        }
        self.apps.len()
    }

    fn insert(&mut self, app: ManagedApp)
        ensures
            final(self).view() == old(self).view().insert(app_key(app), app),
    {
        proof {
            use_type_invariant(&*self);
        }
        let ghost k = app_key(app);
        let ghost old_s = self.apps@;
        match self.find(&app.package_name, app.user_id) {
            Some(i) => {
                let mut apps = Vec::new();
                std::mem::swap(&mut apps, &mut self.apps);
                apps.set(i, app);
                proof {
                    let new_s = apps@;
                    assert forall|a: int, b: int| 0 <= a < b < new_s.len() implies app_key(new_s[a])
                        != app_key(new_s[b]) by {
                        if a != i && b != i {
                            assert(new_s[a] == old_s[a] && new_s[b] == old_s[b]);
                        } else if a == i {
                            assert(app_key(old_s[a]) != app_key(old_s[b]));
                        } else {
                            assert(app_key(old_s[a]) != app_key(old_s[b]));
                        }
                    }
                }
                self.apps = apps;
                proof {
                    let new_s = self.apps@;
                    assert forall|x: (Seq<char>, u32)| #[trigger] self.view().contains_key(x)
                        implies old(self).view().insert(k, app).contains_key(x) && self.view()[x]
                        == old(self).view().insert(k, app)[x] by {
                        let j = choose|j: int| 0 <= j < new_s.len() && app_key(new_s[j]) == x;
                        self.lemma_at(j);
                        if j != i {
                            assert(new_s[j] == old_s[j]);
                            old(self).lemma_at(j);
                        }
                    }
                    assert forall|x: (Seq<char>, u32)| #[trigger] old(self).view().insert(k, app).contains_key(x) implies self.view().contains_key(x) by {
                        if x == k {
                            assert(app_key(new_s[i as int]) == k);
                        } else {
                            let j = choose|j: int| 0 <= j < old_s.len() && app_key(old_s[j]) == x;
                            assert(j != i);
                            assert(new_s[j] == old_s[j]);
                        }
                    }
                    assert(self.view() =~= old(self).view().insert(k, app));
                }
            },
            None => {
                let mut apps = Vec::new();
                std::mem::swap(&mut apps, &mut self.apps);
                apps.push(app);
                proof {
                    let new_s = apps@;
                    let n = old_s.len() as int;
                    assert forall|a: int, b: int| 0 <= a < b < new_s.len() implies app_key(new_s[a])
                        != app_key(new_s[b]) by {
                        if b == n {
                            assert(new_s[a] == old_s[a]);
                            old(self).lemma_at(a);
                        } else {
                            assert(new_s[a] == old_s[a] && new_s[b] == old_s[b]);
                        }
                    }
                }
                self.apps = apps;
                proof {
                    let new_s = self.apps@;
                    let n = old_s.len() as int;
                    assert forall|x: (Seq<char>, u32)| #[trigger] self.view().contains_key(x)
                        implies old(self).view().insert(k, app).contains_key(x) && self.view()[x]
                        == old(self).view().insert(k, app)[x] by {
                        let j = choose|j: int| 0 <= j < new_s.len() && app_key(new_s[j]) == x;
                        self.lemma_at(j);
                        if j < n {
                            assert(new_s[j] == old_s[j]);
                            old(self).lemma_at(j);
                        }
                    }
                    assert forall|x: (Seq<char>, u32)| #[trigger] old(self).view().insert(k, app).contains_key(x) implies self.view().contains_key(x) by {
                        if x == k {
                            assert(app_key(new_s[n]) == k);
                        } else {
                            let j = choose|j: int| 0 <= j < old_s.len() && app_key(old_s[j]) == x;
                            assert(new_s[j] == old_s[j]);
                        }
                    }
                    assert(self.view() =~= old(self).view().insert(k, app));
                }
            },
        }
    }
}

/// The position of the last record with the key.
pub open spec fn last_with_key(records: Seq<PackageRecord>, k: (Seq<char>, u32)) -> Option<int>
    decreases records.len(),
{
    if records.len() == 0 {
        None
    } else if record_key(records.last()) == k {
        Some(records.len() - 1)
    } else {
        last_with_key(records.drop_last(), k)
    }
}

proof fn lemma_last_with_key_bound(records: Seq<PackageRecord>, k: (Seq<char>, u32))
    ensures
        last_with_key(records, k) matches Some(j) ==> 0 <= j < records.len() && record_key(records[j])
            == k,
    decreases records.len(),
{
    if records.len() > 0 && record_key(records.last()) != k {
        lemma_last_with_key_bound(records.drop_last(), k);
    }
}

/// The managed app for a package record: protected as the context and its
/// name say, under the policy `<user>:<package>`.
pub open spec fn is_inventory_app(
    app: ManagedApp,
    record: PackageRecord,
    context: ProtectedPackageContext,
) -> bool {
    &&& app.package_name@ == record.package_name@
    &&& app.user_id == record.user_id
    &&& app.uid == record.uid
    &&& app.label == record.label
    &&& app.is_system_app == record.is_system_app
    &&& app.protected_reason == protection_reason(
        record.package_name@,
        record.is_system_app,
        context,
    )
    &&& app.policy_id@ == decimal(record.user_id as nat) + ":"@ + record.package_name@
    &&& app.last_seen_baseline@ == Seq::<char>::empty()
}

/// The inventory of the records: one app per package name and user, built
/// from the last record with that key.
pub open spec fn is_inventory_of(
    inv: Map<(Seq<char>, u32), ManagedApp>,
    records: Seq<PackageRecord>,
    context: ProtectedPackageContext,
) -> bool {
    forall|k: (Seq<char>, u32)|
        (#[trigger] inv.contains_key(k) <==> last_with_key(records, k) is Some) && (
        inv.contains_key(k) ==> is_inventory_app(inv[k], records[last_with_key(records, k)->0], context))
}

/// The inventory of the records when no package holds a device role.
pub fn build_inventory(records: Vec<PackageRecord>) -> (inv: AppInventory)
    ensures
        forall|k: (Seq<char>, u32)|
            (#[trigger] inv.view().contains_key(k) <==> last_with_key(records@, k) is Some) && (
            inv.view().contains_key(k) ==> {
                let r = records@[last_with_key(records@, k)->0];
                let app = inv.view()[k];
                &&& app.package_name@ == r.package_name@
                &&& app.user_id == r.user_id
                &&& app.uid == r.uid
                &&& app.label == r.label
                &&& app.is_system_app == r.is_system_app
                &&& app.protected_reason == default_protection(r.package_name@, r.is_system_app)
                &&& app.policy_id@ == decimal(r.user_id as nat) + ":"@ + r.package_name@
                &&& app.last_seen_baseline@ == Seq::<char>::empty()
            }),
{
    let context = ProtectedPackageContext::default();
    let inv = build_inventory_with_context(records, &context);
    proof {
        assert forall|k: (Seq<char>, u32)| inv.view().contains_key(k) implies (#[trigger] inv.view()[k]).protected_reason
            == default_protection(
            records@[last_with_key(records@, k)->0].package_name@,
            records@[last_with_key(records@, k)->0].is_system_app,
        ) by {
            let r = records@[last_with_key(records@, k)->0];
            assert(!is_listed(context.launcher_packages@, r.package_name@));
            assert(!is_listed(context.input_method_packages@, r.package_name@));
            assert(!is_listed(context.root_manager_packages@, r.package_name@));
            assert(!is_listed(context.hook_manager_packages@, r.package_name@));
        }
    }
    inv
}

fn inventory_app(record: PackageRecord, context: &ProtectedPackageContext) -> (app: ManagedApp)
    ensures
        is_inventory_app(app, record, *context),
{
    let protected_reason = protected_reason_for_with_context(
        record.package_name.as_str(),
        record.is_system_app,
        context,
    );
    let mut policy_id = String::new();
    crate::text::format::push_decimal(&mut policy_id, record.user_id as u128);
    policy_id.push(':');
    let name = chars_of(record.package_name.as_str());
    push_chars(&mut policy_id, name.as_slice());
    proof {
        reveal_strlit(":");
        assert(policy_id@ == decimal(record.user_id as nat) + ":"@ + record.package_name@);
    }
    ManagedApp {
        package_name: record.package_name,
        user_id: record.user_id,
        uid: record.uid,
        label: record.label,
        is_system_app: record.is_system_app,
        protected_reason,
        policy_id,
        last_seen_baseline: String::new(),
    }
}

/// The inventory of the records: one app per package name and user, built
/// from the last record with that key, protected as the context and its
/// name say.
pub fn build_inventory_with_context(
    records: Vec<PackageRecord>,
    context: &ProtectedPackageContext,
) -> (inv: AppInventory)
    ensures
        is_inventory_of(inv.view(), records@, *context),
{
    let mut inv = AppInventory::empty();
    let mut i: usize = 0;
    while i < records.len()
        invariant
            i <= records@.len(),
            is_inventory_of(inv.view(), records@.take(i as int), *context),
        decreases records@.len() - i,
    {
        let r = &records[i];
        let copy = PackageRecord {
            package_name: r.package_name.clone(),
            user_id: r.user_id,
            uid: r.uid,
            label: r.label.clone(),
            is_system_app: r.is_system_app,
        };
        let app = inventory_app(copy, context);
        let ghost before = inv.view();
        inv.insert(app);
        proof {
            let prev = records@.take(i as int);
            let next = records@.take(i + 1);
            assert(next.drop_last() == prev);
            assert(next.last() == *r);
            assert forall|k: (Seq<char>, u32)| #[trigger] inv.view().contains_key(k) <==> last_with_key(next, k) is Some by {
                if k != record_key(*r) {
                    assert(last_with_key(next, k) == last_with_key(prev, k));
                }
            }
            assert forall|k: (Seq<char>, u32)| #[trigger] inv.view().contains_key(k) implies is_inventory_app(inv.view()[k], next[last_with_key(next, k)->0], *context) by {
                if k != record_key(*r) {
                    assert(last_with_key(next, k) == last_with_key(prev, k));
                    let j = last_with_key(prev, k)->0;
                    lemma_last_with_key_bound(prev, k);
                    assert(next[j] == prev[j]);
                }
            }
        }
        i = i + 1;
    }
    assert(records@.take(records@.len() as int) == records@);
    inv
}

} // verus!
