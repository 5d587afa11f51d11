use std::collections::VecDeque;
use vstd::prelude::*;
use crate::domain::operation::{ControlAction, ControlOperation, OperationResult};
use crate::text::chars::{chars_of, push_chars};
use crate::text::format::{
    ascii_lowercase, comma_numbers, concat, decimal, join, json_escape, one_line,
    push_comma_numbers, push_decimal, push_json_escaped, push_one_line, push_two_digits,
    signed_decimal, to_ascii_lowercase, two_digits,
};
use crate::text::scan::{contains, contains_chars, is_blank, starts_with, starts_with_chars, trim, trimmed};

verus! {

/// A bounded log of control operations; when it is full the oldest record
/// is discarded.
#[derive(Debug, PartialEq, Eq)]
pub struct OperationLog {
    capacity: usize,
    records: VecDeque<ControlOperation>,
}

/// The name of an action in the JSON log.
pub open spec fn action_name(a: ControlAction) -> Seq<char> {
    match a {
        ControlAction::Freeze => "freeze"@,
        ControlAction::Unfreeze => "unfreeze"@,
        ControlAction::Terminate => "terminate"@,
        ControlAction::Postpone => "postpone"@,
        ControlAction::Fallback => "fallback"@,
        ControlAction::Skip => "skip"@,
        ControlAction::Recover => "recover"@,
    }
}

/// The name of a result in the JSON log.
pub open spec fn result_name(r: OperationResult) -> Seq<char> {
    match r {
        OperationResult::Success => "success"@,
        OperationResult::Partial => "partial"@,
        OperationResult::Failed => "failed"@,
        OperationResult::Skipped => "skipped"@,
        OperationResult::Postponed => "postponed"@,
    }
}

/// The result as the legacy manager log shows it.
pub open spec fn legacy_result_name(r: OperationResult) -> Seq<char> {
    match r {
        OperationResult::Success => "成功"@,
        OperationResult::Partial => "部分完成"@,
        OperationResult::Failed => "失败"@,
        OperationResult::Skipped => "已跳过"@,
        OperationResult::Postponed => "已延迟"@,
    }
}

/// One operation as a JSON object.
pub open spec fn operation_json(op: ControlOperation) -> Seq<char> {
    "{\"operationId\":"@ + decimal(op.operation_id as nat) + ",\"timestampMs\":"@ + decimal(
        op.timestamp_ms as nat,
    ) + ",\"packageName\":\""@ + json_escape(op.package_name@) + "\",\"uid\":"@ + decimal(
        op.uid as nat,
    ) + ",\"pidList\":["@ + comma_numbers(op.pid_list@) + "],\"action\":\""@ + action_name(
        op.action,
    ) + "\",\"backend\":\""@ + json_escape(op.backend@) + "\",\"reason\":\""@ + json_escape(
        op.reason@,
    ) + "\",\"result\":\""@ + result_name(op.result) + "\",\"details\":\""@ + json_escape(
        op.details@,
    ) + "\"}"@
}

/// A whole log as a JSON document.
pub open spec fn log_json(ops: Seq<ControlOperation>) -> Seq<char> {
    "{\"operations\":["@ + join(ops.map_values(|op: ControlOperation| operation_json(op)), ","@)
        + "]}"@
}

/// The seconds into the day at UTC+8 for a timestamp in milliseconds.
pub open spec fn day_seconds(timestamp_ms: u128) -> nat {
    (((timestamp_ms / 1000) + 8 * 3600) % 86400) as nat
}

/// The `[hh:mm:ss]  ` prefix of a legacy log line, at UTC+8.
pub open spec fn legacy_time_prefix(timestamp_ms: u128) -> Seq<char> {
    let s = day_seconds(timestamp_ms);
    "["@ + two_digits(s / 3600) + ":"@ + two_digits((s % 3600) / 60) + ":"@ + two_digits(s % 60)
        + "]  "@
}

/// A legacy log line: the time prefix, the message, and a newline unless
/// the message already ends with one.
pub open spec fn legacy_line(timestamp_ms: u128, message: Seq<char>) -> Seq<char> {
    let line = legacy_time_prefix(timestamp_ms) + message;
    if line.len() > 0 && line.last() == '\n' {
        line
    } else {
        line.push('\n')
    }
}

/// The text in `s` if `b` holds, nothing otherwise.
pub open spec fn when(b: bool, s: Seq<char>) -> Seq<char> {
    if b {
        s
    } else {
        Seq::empty()
    }
}

/// Whether details are worth showing: not blank, and not just a process
/// count.
pub open spec fn shows_details(details: Seq<char>) -> bool {
    trim(details).len() > 0 && !starts_with(trim(details), "process_count="@)
}

/// The context that follows a legacy log message: uid, pids, backend,
/// result, reason and details, the optional ones only when present.
pub open spec fn legacy_context(op: ControlOperation) -> Seq<char> {
    let pids = comma_numbers(op.pid_list@);
    " UID:"@ + decimal(op.uid as nat) + when(pids.len() > 0, " PID:"@ + pids) + when(
        trim(op.backend@).len() > 0,
        " 方式:"@ + one_line(op.backend@),
    ) + " 结果:"@ + legacy_result_name(op.result) + when(
        trim(op.reason@).len() > 0,
        " 原因:"@ + one_line(op.reason@),
    ) + when(shows_details(op.details@), " 详情:"@ + one_line(op.details@))
}

/// Whether a postponement was caused by binder work, by its reason and
/// details.
pub open spec fn binder_blocked(op: ControlOperation) -> bool {
    contains(ascii_lowercase(op.reason@ + " "@ + op.details@), "binder"@)
}

/// The pid shown for a binder blocker: the first pid, or `?`.
pub open spec fn blocker_pid(op: ControlOperation) -> Seq<char> {
    if op.pid_list@.len() > 0 {
        signed_decimal(op.pid_list@[0] as int)
    } else {
        "?"@
    }
}

/// The freeze phrase: a signal freeze is shown apart from a freezer one.
pub open spec fn freeze_phrase(op: ControlOperation) -> Seq<char> {
    if contains(op.backend@, "signal"@) {
        "🧊冻结"@
    } else {
        "❄️冻结"@
    }
}

/// The start of a legacy log message, before its context: a symbol and a
/// verb, the package, and the number of processes.
pub open spec fn legacy_head(op: ControlOperation) -> Seq<char> {
    let package = one_line(op.package_name@);
    let procs = decimal(op.pid_list@.len()) + "进程"@;
    match op.action {
        ControlAction::Freeze => freeze_phrase(op) + " "@ + package + " "@ + procs,
        ControlAction::Unfreeze => if op.pid_list@.len() == 0 {
            "😁启动 "@ + package
        } else {
            "☀️解冻 "@ + package + " "@ + procs
        },
        ControlAction::Terminate => if op.pid_list@.len() == 0 {
            "😭关闭 "@ + package
        } else {
            "😭关闭 "@ + package + " "@ + procs
        },
        ControlAction::Postpone => if binder_blocked(op) {
            package + ":"@ + blocker_pid(op) + " Binder正在传输, 延迟后再冻结"@
        } else {
            "⏳延迟冻结 "@ + package + " "@ + procs
        },
        ControlAction::Fallback => "⚠️降级处理 "@ + package + " "@ + procs,
        ControlAction::Skip => "⚠️跳过 "@ + package + " "@ + procs,
        ControlAction::Recover => "♻️恢复 "@ + package + " "@ + procs,
    }
}

/// The legacy log message of an operation, as the manager log
/// wrote it.
pub open spec fn legacy_message(op: ControlOperation) -> Seq<char> {
    legacy_head(op) + legacy_context(op)
}

/// The legacy log line of an operation.
pub open spec fn legacy_operation_line(op: ControlOperation) -> Seq<char> {
    legacy_line(op.timestamp_ms, legacy_message(op))
}

/// A whole log as legacy text, one line per operation.
pub open spec fn log_legacy_text(ops: Seq<ControlOperation>) -> Seq<char> {
    concat(ops.map_values(|op: ControlOperation| legacy_operation_line(op)))
}

impl OperationLog {
    #[verifier::type_invariant]
    spec fn bounded(self) -> bool {
        self.capacity >= 1 && self.records@.len() <= self.capacity
    }

    /// The most records the log keeps.
    pub closed spec fn capacity_of(&self) -> nat {
        self.capacity as nat
    }

    /// The records, oldest first.
    pub closed spec fn entries(&self) -> Seq<ControlOperation> {
        self.records@
    }

    /// An empty log keeping at most `capacity` records, and at least one.
    pub fn new(capacity: usize) -> (log: Self)
        ensures
            log.capacity_of() == if capacity >= 1 {
                capacity as nat
            } else {
                1
            },
            log.entries().len() == 0,
    {
        OperationLog {
            capacity: if capacity >= 1 {
                capacity
            } else {
                1
            },
            records: VecDeque::new(),
        }
    }

    /// Appends an operation, discarding the oldest record when the log is
    /// full.
    pub fn push(&mut self, operation: ControlOperation)
        ensures
            old(self).entries().len() <= old(self).capacity_of(),
            final(self).capacity_of() == old(self).capacity_of(),
            old(self).entries().len() == old(self).capacity_of() ==> final(self).entries()
                == old(self).entries().drop_first().push(operation),
            old(self).entries().len() < old(self).capacity_of() ==> final(self).entries()
                == old(self).entries().push(operation),
            final(self).entries().len() <= final(self).capacity_of(),
            final(self).capacity_of() >= 1,
            final(self).entries().len() > 0 && final(self).entries().last() == operation,
    {
        proof {
            use_type_invariant(&*self);
        }
        let full = self.records.len() == self.capacity;
        let mut records = VecDeque::new();
        std::mem::swap(&mut records, &mut self.records);
        if full {
            records.pop_front();
        }
        records.push_back(operation);
        self.records = records;
    }

    /// The records, oldest first.
    pub fn records(&self) -> (r: &VecDeque<ControlOperation>)
        ensures
            r@ == self.entries(),
    {
        &self.records
    }

    /// The log as a JSON document.
    pub fn to_json(&self) -> (s: String)
        ensures
            s@ == log_json(self.entries()),
    {
        let ghost ops = self.records@;
        let ghost f = |op: ControlOperation| operation_json(op);
        let mut s = "{\"operations\":[".to_owned();
        let ghost start = s@;
        let mut i: usize = 0;
        while i < self.records.len()
            invariant
                ops == self.records@,
                i <= ops.len(),
                f == (|op: ControlOperation| operation_json(op)),
                s@ == start + join(ops.take(i as int).map_values(f), ","@),
            decreases ops.len() - i,
        {
            let ghost before = s@;
            if i > 0 {
                s.push(',');
            }
            let one = operation_to_json(&self.records[i]);
            let cs = chars_of(one.as_str());
            push_chars(&mut s, cs.as_slice());
            proof {
                let parts = ops.take(i + 1).map_values(f);
                assert(parts.drop_last() == ops.take(i as int).map_values(f));
                assert(parts.last() == operation_json(ops[i as int]));
                if i == 0 {
                    assert(join(ops.take(0).map_values(f), ","@) == Seq::<char>::empty());
                } else {
                    reveal_strlit(",");
                    assert(s@ == before + ","@ + operation_json(ops[i as int]));
                }
            }
            i = i + 1;
        }
        s.append("]}");
        assert(ops.take(ops.len() as int) == ops);
        s
    }

    /// The log as legacy text, one line per operation.
    pub fn to_legacy_text(&self) -> (s: String)
        ensures
            s@ == log_legacy_text(self.entries()),
    {
        let ghost ops = self.records@;
        let ghost f = |op: ControlOperation| legacy_operation_line(op);
        let mut s = String::new();
        let mut i: usize = 0;
        while i < self.records.len()
            invariant
                ops == self.records@,
                i <= ops.len(),
                f == (|op: ControlOperation| legacy_operation_line(op)),
                s@ == concat(ops.take(i as int).map_values(f)),
            decreases ops.len() - i,
        {
            let line = operation_to_legacy_text(&self.records[i]);
            let cs = chars_of(line.as_str());
            push_chars(&mut s, cs.as_slice());
            proof {
                let parts = ops.take(i + 1).map_values(f);
                assert(parts.drop_last() == ops.take(i as int).map_values(f));
            }
            i = i + 1;
        }
        assert(ops.take(ops.len() as int) == ops);
        s
    }
}

fn action_text(a: ControlAction) -> (s: &'static str)
    ensures
        s@ == action_name(a),
{
    match a {
        ControlAction::Freeze => "freeze",
        ControlAction::Unfreeze => "unfreeze",
        ControlAction::Terminate => "terminate",
        ControlAction::Postpone => "postpone",
        ControlAction::Fallback => "fallback",
        ControlAction::Skip => "skip",
        ControlAction::Recover => "recover",
    }
}

fn result_text(r: OperationResult) -> (s: &'static str)
    ensures
        s@ == result_name(r),
{
    match r {
        OperationResult::Success => "success",
        OperationResult::Partial => "partial",
        OperationResult::Failed => "failed",
        OperationResult::Skipped => "skipped",
        OperationResult::Postponed => "postponed",
    }
}

fn legacy_result_text(r: OperationResult) -> (s: &'static str)
    ensures
        s@ == legacy_result_name(r),
{
    match r {
        OperationResult::Success => "成功",
        OperationResult::Partial => "部分完成",
        OperationResult::Failed => "失败",
        OperationResult::Skipped => "已跳过",
        OperationResult::Postponed => "已延迟",
    }
}

fn push_escaped_str(out: &mut String, s: &String)
    ensures
        final(out)@ == old(out)@ + json_escape(s@),
{
    let cs = chars_of(s.as_str());
    push_json_escaped(out, cs.as_slice());
}

/// One operation as a JSON object.
pub fn operation_to_json(operation: &ControlOperation) -> (s: String)
    ensures
        s@ == operation_json(*operation),
{
    let mut s = "{\"operationId\":".to_owned();
    push_decimal(&mut s, operation.operation_id as u128);
    s.append(",\"timestampMs\":");
    push_decimal(&mut s, operation.timestamp_ms);
    s.append(",\"packageName\":\"");
    push_escaped_str(&mut s, &operation.package_name);
    s.append("\",\"uid\":");
    push_decimal(&mut s, operation.uid as u128);
    s.append(",\"pidList\":[");
    push_comma_numbers(&mut s, operation.pid_list.as_slice());
    s.append("],\"action\":\"");
    s.append(action_text(operation.action));
    s.append("\",\"backend\":\"");
    push_escaped_str(&mut s, &operation.backend);
    s.append("\",\"reason\":\"");
    push_escaped_str(&mut s, &operation.reason);
    s.append("\",\"result\":\"");
    s.append(result_text(operation.result));
    s.append("\",\"details\":\"");
    push_escaped_str(&mut s, &operation.details);
    s.append("\"}");
    s
}

/// The legacy log line of an operation.
pub fn operation_to_legacy_text(operation: &ControlOperation) -> (s: String)
    ensures
        s@ == legacy_operation_line(*operation),
{
    let message = legacy_operation_message(operation);
    legacy_timestamped_line(operation.timestamp_ms, message.as_str())
}

/// The message prefixed with the `[hh:mm:ss]  ` time at UTC+8, ending with
/// a newline.
pub fn legacy_timestamped_line(timestamp_ms: u128, message: &str) -> (s: String)
    ensures
        s@ == legacy_line(timestamp_ms, message@),
{
    let seconds = ((timestamp_ms / 1000) + 8 * 3600) % 86400;
    let mut line = "[".to_owned();
    push_two_digits(&mut line, seconds / 3600);
    line.append(":");
    push_two_digits(&mut line, (seconds % 3600) / 60);
    line.append(":");
    push_two_digits(&mut line, seconds % 60);
    line.append("]  ");
    let cs = chars_of(message);
    push_chars(&mut line, cs.as_slice());
    assert(line@ == legacy_time_prefix(timestamp_ms) + message@);
    let n = cs.len();
    let ends_with_newline = if n > 0 {
        cs[n - 1] == '\n'
    } else {
        false
    };
    proof {
        reveal_strlit("]  ");
        assert(line@.len() > 0);
        if n > 0 {
            assert(line@.last() == cs@[n - 1]);
        } else {
            assert(line@.last() == ' ');
        }
    }
    if !ends_with_newline {
        line.push('\n');
    }
    line
}

fn push_when(out: &mut String, cond: bool, label: &str, text: &[char], flatten: bool)
    ensures
        flatten ==> final(out)@ == old(out)@ + when(cond, label@ + one_line(text@)),
        !flatten ==> final(out)@ == old(out)@ + when(cond, label@ + text@),
{
    if cond {
        out.append(label);
        if flatten {
            push_one_line(out, text);
        } else {
            push_chars(out, text);
        }
    }
}

fn legacy_context_text(operation: &ControlOperation, pids: &String) -> (ctx: String)
    requires
        pids@ == comma_numbers(operation.pid_list@),
    ensures
        ctx@ == legacy_context(*operation),
{
    let mut ctx = " UID:".to_owned();
    push_decimal(&mut ctx, operation.uid as u128);
    let pid_chars = chars_of(pids.as_str());
    push_when(&mut ctx, pid_chars.len() > 0, " PID:", pid_chars.as_slice(), false);
    let backend = chars_of(operation.backend.as_str());
    let show_backend = !is_blank(backend.as_slice());
    push_when(&mut ctx, show_backend, " 方式:", backend.as_slice(), true);
    ctx.append(" 结果:");
    ctx.append(legacy_result_text(operation.result));
    let reason = chars_of(operation.reason.as_str());
    let show_reason = !is_blank(reason.as_slice());
    push_when(&mut ctx, show_reason, " 原因:", reason.as_slice(), true);
    let details = chars_of(operation.details.as_str());
    let show = should_show_details(details.as_slice());
    push_when(&mut ctx, show, " 详情:", details.as_slice(), true);
    ctx
}

fn should_show_details(details: &[char]) -> (r: bool)
    ensures
        r == shows_details(details@),
{
    if is_blank(details) {
        return false;
    }
    let t = trimmed(details);
    let prefix = chars_of("process_count=");
    !starts_with_chars(t.as_slice(), prefix.as_slice())
}

fn is_binder_blocker(operation: &ControlOperation) -> (r: bool)
    ensures
        r == binder_blocked(*operation),
{
    let mut evidence = String::new();
    let reason = chars_of(operation.reason.as_str());
    push_chars(&mut evidence, reason.as_slice());
    evidence.push(' ');
    let details = chars_of(operation.details.as_str());
    push_chars(&mut evidence, details.as_slice());
    proof {
        reveal_strlit(" ");
        assert(evidence@ == operation.reason@ + " "@ + operation.details@);
    }
    let cs = chars_of(evidence.as_str());
    let lower = to_ascii_lowercase(cs.as_slice());
    let needle = chars_of("binder");
    contains_chars(lower.as_slice(), needle.as_slice())
}

fn push_labelled(out: &mut String, label: &str, package: &[char], procs: &[char])
    ensures
        final(out)@ == old(out)@ + label@ + package@ + " "@ + procs@,
{
    out.append(label);
    push_chars(out, package);
    out.append(" ");
    push_chars(out, procs);
}

fn push_legacy_head(out: &mut String, operation: &ControlOperation)
    ensures
        final(out)@ == old(out)@ + legacy_head(*operation),
{
    let name = chars_of(operation.package_name.as_str());
    let mut package_text = String::new();
    push_one_line(&mut package_text, name.as_slice());
    let mut procs_text = String::new();
    push_decimal(&mut procs_text, operation.pid_list.len() as u128);
    procs_text.append("进程");
    let package = chars_of(package_text.as_str());
    let procs = chars_of(procs_text.as_str());
    let no_pids = operation.pid_list.len() == 0;
    match operation.action {
        ControlAction::Freeze => {
            let backend = chars_of(operation.backend.as_str());
            let signal = chars_of("signal");
            if contains_chars(backend.as_slice(), signal.as_slice()) {
                push_labelled(out, "🧊冻结 ", package.as_slice(), procs.as_slice());
            } else {
                push_labelled(out, "❄️冻结 ", package.as_slice(), procs.as_slice());
            }
            assert(freeze_phrase(*operation) + " "@ == if contains(operation.backend@, "signal"@) {
                "🧊冻结 "@
            } else {
                "❄️冻结 "@
            }) by {
                reveal_strlit("🧊冻结 ");
                reveal_strlit("❄️冻结 ");
                reveal_strlit("🧊冻结");
                reveal_strlit("❄️冻结");
                reveal_strlit(" ");
            }
        },
        ControlAction::Unfreeze => {
            if no_pids {
                out.append("😁启动 ");
                push_chars(out, package.as_slice());
            } else {
                push_labelled(out, "☀️解冻 ", package.as_slice(), procs.as_slice());
            }
        },
        ControlAction::Terminate => {
            if no_pids {
                out.append("😭关闭 ");
                push_chars(out, package.as_slice());
            } else {
                push_labelled(out, "😭关闭 ", package.as_slice(), procs.as_slice());
            }
        },
        ControlAction::Postpone => {
            if is_binder_blocker(operation) {
                push_chars(out, package.as_slice());
                out.append(":");
                if operation.pid_list.len() > 0 {
                    crate::text::format::push_signed_decimal(out, operation.pid_list[0] as i128);
                } else {
                    out.append("?");
                }
                out.append(" Binder正在传输, 延迟后再冻结");
            } else {
                push_labelled(out, "⏳延迟冻结 ", package.as_slice(), procs.as_slice());
            }
        },
        ControlAction::Fallback => {
            push_labelled(out, "⚠️降级处理 ", package.as_slice(), procs.as_slice());
        },
        ControlAction::Skip => {
            push_labelled(out, "⚠️跳过 ", package.as_slice(), procs.as_slice());
        },
        ControlAction::Recover => {
            push_labelled(out, "♻️恢复 ", package.as_slice(), procs.as_slice());
        },
    }
}

fn legacy_operation_message(operation: &ControlOperation) -> (s: String)
    ensures
        s@ == legacy_message(*operation),
{
    let mut pids = String::new();
    push_comma_numbers(&mut pids, operation.pid_list.as_slice());
    let mut s = String::new();
    push_legacy_head(&mut s, operation);
    let ctx = legacy_context_text(operation, &pids);
    let cs = chars_of(ctx.as_str());
    push_chars(&mut s, cs.as_slice());
    s
}


/// The JSON log names each action and result by its lower-case name, and
/// no two actions or two results share a name.
pub proof fn law_log_names(a: ControlAction, b: ControlAction, r: OperationResult, q: OperationResult)
    ensures
        action_name(ControlAction::Freeze) == "freeze"@,
        action_name(ControlAction::Unfreeze) == "unfreeze"@,
        action_name(ControlAction::Terminate) == "terminate"@,
        action_name(ControlAction::Postpone) == "postpone"@,
        action_name(ControlAction::Fallback) == "fallback"@,
        action_name(ControlAction::Skip) == "skip"@,
        action_name(ControlAction::Recover) == "recover"@,
        result_name(OperationResult::Success) == "success"@,
        result_name(OperationResult::Partial) == "partial"@,
        result_name(OperationResult::Failed) == "failed"@,
        result_name(OperationResult::Skipped) == "skipped"@,
        result_name(OperationResult::Postponed) == "postponed"@,
        a != b ==> action_name(a) != action_name(b),
        r != q ==> result_name(r) != result_name(q),
{
    reveal_strlit("freeze");
    reveal_strlit("unfreeze");
    reveal_strlit("terminate");
    reveal_strlit("postpone");
    reveal_strlit("fallback");
    reveal_strlit("skip");
    reveal_strlit("recover");
    reveal_strlit("success");
    reveal_strlit("partial");
    reveal_strlit("failed");
    reveal_strlit("skipped");
    reveal_strlit("postponed");
    assert("freeze"@.len() == 6 && "unfreeze"@.len() == 8 && "terminate"@.len() == 9);
    assert("postpone"@.len() == 8 && "fallback"@.len() == 8 && "skip"@.len() == 4);
    assert("recover"@.len() == 7);
    assert("unfreeze"@[0] == 'u' && "postpone"@[0] == 'p' && "fallback"@[0] == 'f');
    assert("success"@.len() == 7 && "partial"@.len() == 7 && "failed"@.len() == 6);
    assert("skipped"@.len() == 7 && "postponed"@.len() == 9);
    assert("success"@[1] == 'u' && "partial"@[1] == 'a' && "skipped"@[1] == 'k');
}

} // verus!
