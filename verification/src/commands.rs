//! The decisions behind each command, separated from the I/O that carries
//! them out. Mutations follow the safety model: nothing is ever expunged,
//! trash previews unless confirmed, every move is recorded in the audit
//! log before it happens, and UIDVALIDITY pins are passed to the step that
//! touches the mailbox.
use vstd::prelude::*;
use crate::error::Error;
use crate::provider::{Provider, spec_drafts_folder, spec_trash_folder};
use crate::text::{decimal, owned, push_decimal};
use crate::config::opt_chars;

verus! {

/// A copy of a UID list.
pub fn copy_uids(v: &Vec<u32>) -> (r: Vec<u32>)
    ensures
        r@ == v@,
{
    let mut r: Vec<u32> = Vec::new();
    let mut i: usize = 0;
    while i < v.len()
        invariant
            i <= v.len(),
            r@ == v@.take(i as int),
        decreases v.len() - i,
    {
        r.push(v[i]);
        assert(v@.take(i as int).push(v@[i as int]) =~= v@.take(i + 1));
        i += 1;
    }
    assert(v@.take(v.len() as int) =~= v@);
    r
}

/// A copy of a list of strings.
pub fn copy_strings(v: &Vec<String>) -> (r: Vec<String>)
    ensures
        r@ == v@,
{
    let mut r: Vec<String> = Vec::new();
    let mut i: usize = 0;
    while i < v.len()
        invariant
            i <= v.len(),
            r@ == v@.take(i as int),
        decreases v.len() - i,
    {
        r.push(v[i].clone());
        assert(v@.take(i as int).push(v@[i as int]) =~= v@.take(i + 1));
        i += 1;
    }
    assert(v@.take(v.len() as int) =~= v@);
    r
}

/// One step of a mailbox mutation, carried out in order.
#[derive(Debug)]
pub enum Step {
    /// Fetch the messages' metadata only; nothing changes.
    Preview { folder: String, uids: Vec<u32>, expect: Option<u32> },
    /// Append the intent to the audit log.
    Audit { action: &'static str, folder: String, dest: Option<String>, uids: Vec<u32> },
    /// Create a folder, ignoring failure (e.g. when it exists).
    EnsureFolder { name: String },
    /// Select `from` (checking the pinned UIDVALIDITY) and move the
    /// messages to `to`.
    MoveMessages { from: String, uids: Vec<u32>, to: String, expect: Option<u32> },
    /// Select `folder` and add one flag to the messages.
    AddFlag { folder: String, uids: Vec<u32>, flag: &'static str, expect: Option<u32> },
    /// Select `folder` (checking the pin) and add/remove Gmail labels.
    StoreLabels {
        folder: String,
        uids: Vec<u32>,
        add: Vec<String>,
        remove: Vec<String>,
        expect: Option<u32>,
    },
}

/// The step is an audit record.
pub open spec fn is_audit(s: Step) -> bool {
    s is Audit
}

/// The step changes the mailbox.
pub open spec fn is_mutation(s: Step) -> bool {
    s is MoveMessages || s is StoreLabels || s is EnsureFolder || s is AddFlag
}

/// Every mutating step comes after an audit record.
pub open spec fn audited_first(plan: Seq<Step>) -> bool {
    forall|j: int|
        0 <= j < plan.len() && is_mutation(#[trigger] plan[j]) ==> exists|i: int|
            0 <= i < j && is_audit(#[trigger] plan[i])
}

/// Moves `uids` from `folder` to the provider's trash. Without `confirm`
/// the plan only previews the messages (with their real subjects).
pub fn plan_trash(
    provider: Provider,
    folder: &String,
    uids: &Vec<u32>,
    confirm: bool,
    expect: Option<u32>,
) -> (r: Vec<Step>)
    ensures
        !confirm ==> r@.len() == 1 && (r@[0] matches Step::Preview { folder: f, uids: u, expect: e }
            && f@ == folder@ && u@ == uids@ && e == expect),
        confirm ==> r@.len() == 2 && (r@[0] matches Step::Audit { action, folder: f, dest, uids: u }
            && action@ == "trash"@ && f@ == folder@ && opt_chars(dest) == Some(
            spec_trash_folder(provider)) && u@ == uids@) && (r@[1] matches Step::MoveMessages {
            from,
            uids: u,
            to,
            expect: e,
        } && from@ == folder@ && to@ == spec_trash_folder(provider) && u@ == uids@ && e == expect),
        !confirm ==> forall|i: int| 0 <= i < r@.len() ==> !is_mutation(#[trigger] r@[i]),
        audited_first(r@),
{
    let mut plan: Vec<Step> = Vec::new();
    if !confirm {
        plan.push(Step::Preview { folder: folder.clone(), uids: copy_uids(uids), expect });
    } else {
        let trash = provider.trash_folder();
        plan.push(
            Step::Audit {
                action: "trash",
                folder: folder.clone(),
                dest: Some(owned(trash)),
                uids: copy_uids(uids),
            },
        );
        plan.push(
            Step::MoveMessages {
                from: folder.clone(),
                uids: copy_uids(uids),
                to: owned(trash),
                expect,
            },
        );
    }
    proof {
        if plan@.len() >= 1 && plan@[0] is Audit {
            lemma_audit_opens_plan(plan@);
        }
    }
    plan
}

/// Moves `uids` out of the provider's trash into `to` (the UIDs are those
/// in the trash folder).
pub fn plan_restore(provider: Provider, uids: &Vec<u32>, to: &String, expect: Option<u32>) -> (r: Vec<
    Step,
>)
    ensures
        r@.len() == 2,
        r@[0] matches Step::Audit { action, folder: f, dest, uids: u } && action@ == "restore"@
            && f@ == spec_trash_folder(provider) && opt_chars(dest) == Some(to@) && u@
            == uids@,
        r@[1] matches Step::MoveMessages { from, uids: u, to: t, expect: e } && from@
            == spec_trash_folder(provider) && t@ == to@ && u@ == uids@ && e == expect,
        audited_first(r@),
{
    let trash = provider.trash_folder();
    let mut plan: Vec<Step> = Vec::new();
    plan.push(
        Step::Audit {
            action: "restore",
            folder: owned(trash),
            dest: Some(to.clone()),
            uids: copy_uids(uids),
        },
    );
    plan.push(Step::MoveMessages { from: owned(trash), uids: copy_uids(uids), to: to.clone(), expect });
    proof {
        if plan@.len() >= 1 && plan@[0] is Audit {
            lemma_audit_opens_plan(plan@);
        }
    }
    plan
}

/// Moves `uids` from `folder` to `to`, creating `to` first when asked.
pub fn plan_move(folder: &String, uids: &Vec<u32>, to: &String, create: bool, expect: Option<u32>) -> (r: Vec<
    Step,
>)
    ensures
        r@.len() == if create {
            3int
        } else {
            2int
        },
        r@[0] matches Step::Audit { action, folder: f, dest, uids: u } && action@ == "move"@ && f@
            == folder@ && opt_chars(dest) == Some(to@) && u@ == uids@,
        create ==> (r@[1] matches Step::EnsureFolder { name } && name@ == to@),
        r@.last() matches Step::MoveMessages { from, uids: u, to: t, expect: e } && from@
            == folder@ && t@ == to@ && u@ == uids@ && e == expect,
        audited_first(r@),
{
    let mut plan: Vec<Step> = Vec::new();
    plan.push(
        Step::Audit {
            action: "move",
            folder: folder.clone(),
            dest: Some(to.clone()),
            uids: copy_uids(uids),
        },
    );
    if create {
        plan.push(Step::EnsureFolder { name: to.clone() });
    }
    plan.push(
        Step::MoveMessages { from: folder.clone(), uids: copy_uids(uids), to: to.clone(), expect },
    );
    proof {
        if plan@.len() >= 1 && plan@[0] is Audit {
            lemma_audit_opens_plan(plan@);
        }
    }
    plan
}

/// Adds and removes Gmail labels. Labels exist only on Gmail, and at least
/// one label must be named.
pub fn plan_label(
    provider: Provider,
    folder: &String,
    uids: &Vec<u32>,
    add: &Vec<String>,
    remove: &Vec<String>,
    expect: Option<u32>,
) -> (r: Result<Vec<Step>, Error>)
    ensures
        provider != Provider::Gmail ==> (r matches Err(Error::Other(m)) && m@
            == "标签仅 Gmail 支持；Hotmail 请用 `move` 移动到文件夹"@),
        provider == Provider::Gmail && add@.len() == 0 && remove@.len() == 0 ==> (r matches Err(
            Error::Other(m),
        ) && m@ == "请用 --add 或 --remove 指定标签"@),
        provider == Provider::Gmail && (add@.len() > 0 || remove@.len() > 0) ==> (r matches Ok(
            plan,
        ) && plan@.len() == 2 && (plan@[0] matches Step::Audit { action, folder: f, dest, uids: u }
            && action@ == "label"@ && f@ == folder@ && dest is None && u@ == uids@) && (
        plan@[1] matches Step::StoreLabels { folder: f, uids: u, add: a, remove: rm, expect: e }
            && f@ == folder@ && u@ == uids@ && a@ == add@ && rm@ == remove@ && e == expect)),
        r matches Ok(plan) ==> audited_first(plan@),
{
    if provider != Provider::Gmail {
        return Err(Error::Other(owned("标签仅 Gmail 支持；Hotmail 请用 `move` 移动到文件夹")));
    }
    if add.len() == 0 && remove.len() == 0 {
        return Err(Error::Other(owned("请用 --add 或 --remove 指定标签")));
    }
    let mut plan: Vec<Step> = Vec::new();
    plan.push(
        Step::Audit { action: "label", folder: folder.clone(), dest: None, uids: copy_uids(uids) },
    );
    plan.push(
        Step::StoreLabels {
            folder: folder.clone(),
            uids: copy_uids(uids),
            add: copy_strings(add),
            remove: copy_strings(remove),
            expect,
        },
    );
    proof {
        if plan@.len() >= 1 && plan@[0] is Audit {
            lemma_audit_opens_plan(plan@);
        }
    }
    Ok(plan)
}

// ---------------------------------------------------------------------
// Safety laws
// ---------------------------------------------------------------------

/// A plan that opens with an audit record records its intent before any
/// step that changes the mailbox.
proof fn lemma_audit_opens_plan(plan: Seq<Step>)
    requires
        plan.len() >= 1,
        plan[0] is Audit,
    ensures
        audited_first(plan),
{
    assert forall|j: int| 0 <= j < plan.len() && is_mutation(#[trigger] plan[j]) implies exists|
        i: int,
    | 0 <= i < j && is_audit(#[trigger] plan[i]) by {
        assert(is_audit(plan[0]));
    }
}

// ---------------------------------------------------------------------
// Flags
// ---------------------------------------------------------------------

/// The IMAP flags a `flag` command sets, and the names it reports.
pub fn plan_flags(read: bool, star: bool) -> (r: (Vec<&'static str>, Vec<&'static str>))
    ensures
        r.0@.len() == r.1@.len(),
        r.0@.len() == (if read {
            1int
        } else {
            0int
        }) + (if star {
            1int
        } else {
            0int
        }),
        read ==> r.0@[0]@ == "\\Seen"@ && r.1@[0]@ == "read"@,
        star ==> r.0@.last()@ == "\\Flagged"@ && r.1@.last()@ == "star"@,
{
    let mut flags: Vec<&'static str> = Vec::new();
    let mut names: Vec<&'static str> = Vec::new();
    if read {
        flags.push("\\Seen");
        names.push("read");
    }
    if star {
        flags.push("\\Flagged");
        names.push("star");
    }
    (flags, names)
}

/// Sets the `\\Seen` (`read`) and then the `\\Flagged` (`star`) flag on one
/// message, after recording the intent in the audit log. Without any flag
/// requested there is nothing to change and nothing to record.
pub fn plan_flag(folder: &String, uid: u32, read: bool, star: bool) -> (r: Vec<Step>)
    ensures
        !read && !star ==> r@.len() == 0,
        read || star ==> (r@[0] matches Step::Audit { action, folder: f, dest, uids: u } && action@
            == "flag"@ && f@ == folder@ && dest is None && u@ == seq![uid]),
        r@.len() == (if read || star {
            1int
        } else {
            0int
        }) + (if read {
            1int
        } else {
            0int
        }) + (if star {
            1int
        } else {
            0int
        }),
        read ==> (r@[1] matches Step::AddFlag { folder: f, uids: u, flag, expect } && f@ == folder@
            && u@ == seq![uid] && flag@ == "\\Seen"@ && expect is None),
        star ==> (r@.last() matches Step::AddFlag { folder: f, uids: u, flag, expect } && f@
            == folder@ && u@ == seq![uid] && flag@ == "\\Flagged"@ && expect is None),
        audited_first(r@),
{
    let mut plan: Vec<Step> = Vec::new();
    if read || star {
        let mut uids: Vec<u32> = Vec::new();
        uids.push(uid);
        plan.push(Step::Audit { action: "flag", folder: folder.clone(), dest: None, uids });
        if read {
            let mut u: Vec<u32> = Vec::new();
            u.push(uid);
            plan.push(Step::AddFlag { folder: folder.clone(), uids: u, flag: "\\Seen", expect: None });
        }
        if star {
            let mut u: Vec<u32> = Vec::new();
            u.push(uid);
            plan.push(
                Step::AddFlag { folder: folder.clone(), uids: u, flag: "\\Flagged", expect: None },
            );
        }
        proof {
            lemma_audit_opens_plan(plan@);
        }
    }
    plan
}

/// Names joined by `, `.
pub open spec fn comma_joined(items: Seq<&str>) -> Seq<char>
    decreases items.len(),
{
    if items.len() == 0 {
        Seq::empty()
    } else if items.len() == 1 {
        items[0]@
    } else {
        comma_joined(items.drop_last()) + ", "@ + items.last()@
    }
}

/// The report of a `flag` command: `已应用: read, star`.
pub fn flag_detail(names: &Vec<&'static str>) -> (r: String)
    ensures
        r@ == "已应用: "@ + comma_joined(names@),
{
    let mut r = owned("已应用: ");
    let ghost head = r@;
    let mut i: usize = 0;
    while i < names.len()
        invariant
            i <= names.len(),
            r@ == head + comma_joined(names@.take(i as int)),
        decreases names.len() - i,
    {
        if i > 0 {
            r.append(", ");
        }
        r.append(names[i]);
        assert(names@.take(i + 1).drop_last() =~= names@.take(i as int));
        assert(r@ =~= head + comma_joined(names@.take(i + 1)));
        i += 1;
    }
    assert(names@.take(names.len() as int) =~= names@);
    r
}

// ---------------------------------------------------------------------
// Login
// ---------------------------------------------------------------------

/// How an account authenticates.
#[derive(Debug)]
pub enum LoginMethod {
    /// Browser OAuth with this client (and, for Gmail, its secret).
    OAuth { client_id: String, client_secret: Option<String> },
    /// An app password, stored in the keychain unless it comes from an
    /// environment variable at run time.
    AppPassword { store_in_keychain: bool },
}

/// Chooses the login method: OAuth whenever a client id is given (Gmail
/// then also needs the client secret), else an app password; Hotmail
/// accepts OAuth only.
pub fn plan_login(
    provider: Provider,
    client_id: Option<String>,
    client_secret: Option<String>,
    has_secret_ref: bool,
) -> (r: Result<LoginMethod, Error>)
    ensures
        match (provider, client_id) {
            (Provider::Gmail, Some(c)) => match client_secret {
                Some(s) => r matches Ok(LoginMethod::OAuth { client_id: c2, client_secret: Some(s2) })
                    && c2 == c && s2 == s,
                None => r matches Err(Error::OAuth(m)) && m@
                    == "Gmail OAuth 需要 --client-secret（Google Cloud Desktop 客户端密钥）"@,
            },
            (Provider::Gmail, None) => r matches Ok(LoginMethod::AppPassword { store_in_keychain })
                && store_in_keychain == !has_secret_ref,
            (Provider::Hotmail, Some(c)) => r matches Ok(
                LoginMethod::OAuth { client_id: c2, client_secret: None },
            ) && c2 == c,
            (Provider::Hotmail, None) => r matches Err(Error::OAuth(m)) && m@
                == "Hotmail 需要 --client-id（Azure 应用注册的 public client id）"@,
        },
{
    match provider {
        Provider::Gmail => match client_id {
            Some(c) => match client_secret {
                Some(s) => Ok(LoginMethod::OAuth { client_id: c, client_secret: Some(s) }),
                None => Err(
                    Error::OAuth(
                        owned("Gmail OAuth 需要 --client-secret（Google Cloud Desktop 客户端密钥）"),
                    ),
                ),
            },
            None => Ok(LoginMethod::AppPassword { store_in_keychain: !has_secret_ref }),
        },
        Provider::Hotmail => match client_id {
            Some(c) => Ok(LoginMethod::OAuth { client_id: c, client_secret: None }),
            None => Err(
                Error::OAuth(owned("Hotmail 需要 --client-id（Azure 应用注册的 public client id）")),
            ),
        },
    }
}

/// The credential mode reported after a login.
pub fn login_mode(oauth: bool, has_secret_ref: bool) -> (r: &'static str)
    ensures
        r@ == if oauth {
            "OAuth"@
        } else if has_secret_ref {
            "App Password (secretctl/env)"@
        } else {
            "App Password (keychain)"@
        },
{
    if oauth {
        "OAuth"
    } else if has_secret_ref {
        "App Password (secretctl/env)"
    } else {
        "App Password (keychain)"
    }
}

/// The name a provider is reported under.
pub open spec fn provider_label(p: Provider) -> Seq<char> {
    match p {
        Provider::Gmail => "Gmail"@,
        Provider::Hotmail => "Hotmail"@,
    }
}

/// The report of a login: `已保存账户 <email>（<Provider>，<mode>）`.
pub fn login_detail(email: &str, provider: Provider, mode: &str) -> (r: String)
    ensures
        r@ == "已保存账户 "@ + email@ + "（"@ + provider_label(provider) + "，"@ + mode@ + "）"@,
{
    let mut r = owned("已保存账户 ");
    r.append(email);
    r.append("（");
    match provider {
        Provider::Gmail => r.append("Gmail"),
        Provider::Hotmail => r.append("Hotmail"),
    }
    r.append("，");
    r.append(mode);
    r.append("）");
    r
}

/// The report of a logout: `已注销 <email>`.
pub fn logout_detail(email: &str) -> (r: String)
    ensures
        r@ == "已注销 "@ + email@,
{
    let mut r = owned("已注销 ");
    r.append(email);
    r
}

// ---------------------------------------------------------------------
// Reports of mailbox changes
// ---------------------------------------------------------------------

/// The report of a trash: `已移动 <n> 封到 <trash>（30 天内可 restore 找回）`.
pub fn trash_detail(n: usize, trash: &str) -> (r: String)
    ensures
        r@ == "已移动 "@ + decimal(n as nat) + " 封到 "@ + trash@ + "（30 天内可 restore 找回）"@,
{
    let mut r = owned("已移动 ");
    push_decimal(&mut r, n as u64);
    r.append(" 封到 ");
    r.append(trash);
    r.append("（30 天内可 restore 找回）");
    r
}

/// The report of a restore: `已从 <trash> 恢复 <n> 封到 <to>`.
pub fn restore_detail(trash: &str, n: usize, to: &str) -> (r: String)
    ensures
        r@ == "已从 "@ + trash@ + " 恢复 "@ + decimal(n as nat) + " 封到 "@ + to@,
{
    let mut r = owned("已从 ");
    r.append(trash);
    r.append(" 恢复 ");
    push_decimal(&mut r, n as u64);
    r.append(" 封到 ");
    r.append(to);
    r
}

/// The report of a move: `已移动 <n> 封：<from> -> <to>`.
pub fn move_detail(n: usize, from: &str, to: &str) -> (r: String)
    ensures
        r@ == "已移动 "@ + decimal(n as nat) + " 封："@ + from@ + " -> "@ + to@,
{
    let mut r = owned("已移动 ");
    push_decimal(&mut r, n as u64);
    r.append(" 封：");
    r.append(from);
    r.append(" -> ");
    r.append(to);
    r
}

/// The report of a label change: `已更新 <n> 封的标签`.
pub fn label_detail(n: usize) -> (r: String)
    ensures
        r@ == "已更新 "@ + decimal(n as nat) + " 封的标签"@,
{
    let mut r = owned("已更新 ");
    push_decimal(&mut r, n as u64);
    r.append(" 封的标签");
    r
}

// ---------------------------------------------------------------------
// Sending
// ---------------------------------------------------------------------

/// What happens to a built message.
#[derive(Debug)]
pub enum Delivery {
    /// Hand it to the SMTP transport.
    Send,
    /// Append it to this drafts folder and report `SendNotConfirmed`.
    SaveDraft { folder: &'static str },
}

/// Drafts first: a message is sent only when the send is confirmed;
/// otherwise it is saved to the provider's drafts folder.
pub fn plan_delivery(provider: Provider, confirm: bool) -> (r: Delivery)
    ensures
        confirm <==> r is Send,
        !confirm ==> (r matches Delivery::SaveDraft { folder } && folder@ == spec_drafts_folder(
            provider,
        )),
{
    if confirm {
        Delivery::Send
    } else {
        Delivery::SaveDraft { folder: provider.drafts_folder() }
    }
}

/// Addresses joined by `, `.
pub open spec fn addresses_joined(items: Seq<String>) -> Seq<char>
    decreases items.len(),
{
    if items.len() == 0 {
        Seq::empty()
    } else if items.len() == 1 {
        items[0]@
    } else {
        addresses_joined(items.drop_last()) + ", "@ + items.last()@
    }
}

/// The report of a sent message: `已发送给 <to, ...>`.
pub fn send_detail(to: &Vec<String>) -> (r: String)
    ensures
        r@ == "已发送给 "@ + addresses_joined(to@),
{
    let mut r = owned("已发送给 ");
    let ghost head = r@;
    let mut i: usize = 0;
    while i < to.len()
        invariant
            i <= to.len(),
            r@ == head + addresses_joined(to@.take(i as int)),
        decreases to.len() - i,
    {
        if i > 0 {
            r.append(", ");
        }
        r.append(to[i].as_str());
        assert(to@.take(i + 1).drop_last() =~= to@.take(i as int));
        assert(r@ =~= head + addresses_joined(to@.take(i + 1)));
        i += 1;
    }
    assert(to@.take(to.len() as int) =~= to@);
    r
}

/// The refusal of an offline search in a folder that was never synced:
/// `<email> 的 <folder> 尚未 sync，请先 `mailctl sync``.
pub fn not_synced(email: &str, folder: &str) -> (r: Error)
    ensures
        r matches Error::Other(m) && m@ == email@ + " 的 "@ + folder@
            + " 尚未 sync，请先 `mailctl sync`"@,
{
    let mut m = owned(email);
    m.append(" 的 ");
    m.append(folder);
    m.append(" 尚未 sync，请先 `mailctl sync`");
    Error::Other(m)
}

} // verus!
