//! The activation and deactivation scripts of a virtual environment, and
//! the escaping that puts a path or a name inside their quoted strings.
use vstd::prelude::*;
use crate::text::{chars_of, push_char};

verus! {

/// How one character is written inside a quoted string of a script:
/// PowerShell double quotes (0) put a backtick before `` ` ``, `"` and
/// `$`; `cmd.exe` values (1) double `%`; POSIX shell double quotes (2) put
/// a backslash before `\`, `"`, `$` and `` ` ``.
pub open spec fn escape_char(kind: int, c: char) -> Seq<char> {
    if kind == 0 {
        if c == '`' || c == '"' || c == '$' { seq!['`', c] } else { seq![c] }
    } else if kind == 1 {
        if c == '%' { seq!['%', '%'] } else { seq![c] }
    } else {
        if c == '\\' || c == '"' || c == '$' || c == '`' { seq!['\\', c] } else { seq![c] }
    }
}

/// `s` with each character escaped for a kind of quoted string.
pub open spec fn escaped(kind: int, s: Seq<char>) -> Seq<char>
    decreases s.len(),
{
    if s.len() == 0 {
        seq![]
    } else {
        escape_char(kind, s[0]) + escaped(kind, s.drop_first())
    }
}

fn escape(value: &str, kind: u8) -> (r: String)
    requires
        kind <= 2,
    ensures
        r@ == escaped(kind as int, value@),
{
    let cs = chars_of(value);
    let mut out = String::new();
    let mut i: usize = 0;
    assert(cs@.skip(0) =~= cs@);
    assert(out@ + escaped(kind as int, cs@.skip(0)) =~= escaped(kind as int, cs@));
    while i < cs.len()
        invariant
            kind <= 2,
            cs@ == value@,
            i <= cs@.len(),
            escaped(kind as int, cs@) == out@ + escaped(kind as int, cs@.skip(i as int)),
        decreases cs@.len() - i,
    {
        let c = cs[i];
        let ghost before = out@;
        proof {
            assert(cs@.skip(i as int)[0] == c);
            assert(cs@.skip(i as int).drop_first() =~= cs@.skip(i + 1));
        }
        let special = if kind == 0 {
            c == '`' || c == '"' || c == '$'
        } else if kind == 1 {
            c == '%'
        } else {
            c == '\\' || c == '"' || c == '$' || c == '`'
        };
        if special {
            if kind == 0 {
                push_char(&mut out, '`');
            } else if kind == 1 {
                push_char(&mut out, '%');
            } else {
                push_char(&mut out, '\\');
            }
        }
        push_char(&mut out, c);
        proof {
            assert(out@ =~= before + escape_char(kind as int, c));
        }
        i = i + 1;
    }
    assert(cs@.skip(cs@.len() as int) =~= Seq::<char>::empty());
    out
}

/// `value` escaped for a PowerShell double-quoted string.
pub fn escape_powershell_double_quoted(value: &str) -> (r: String)
    ensures
        r@ == escaped(0, value@),
{
    escape(value, 0)
}

/// A prompt name escaped for `cmd.exe`.
pub fn escape_cmd_prompt_name(value: &str) -> (r: String)
    ensures
        r@ == escaped(1, value@),
{
    escape(value, 1)
}

/// A value escaped for `cmd.exe`.
pub fn escape_cmd_value(value: &str) -> (r: String)
    ensures
        r@ == escaped(1, value@),
{
    escape(value, 1)
}

/// `value` escaped for a POSIX shell double-quoted string.
pub fn escape_sh_double_quoted(value: &str) -> (r: String)
    ensures
        r@ == escaped(2, value@),
{
    escape(value, 2)
}

/// How each shell reads the escaped text back: a PowerShell backtick (0)
/// makes the next character literal; in `cmd.exe` (1) `%%` is `%`; in POSIX
/// double quotes (2) a backslash before `\`, `"`, `$` or `` ` `` is dropped.
pub open spec fn read_back(kind: int, s: Seq<char>) -> Seq<char>
    decreases s.len(),
{
    if s.len() == 0 {
        seq![]
    } else if s.len() >= 2 && ((kind == 0 && s[0] == '`') || (kind == 1 && s[0] == '%' && s[1] == '%') || (
    kind == 2 && s[0] == '\\' && (s[1] == '\\' || s[1] == '"' || s[1] == '$' || s[1] == '`'))) {
        seq![s[1]] + read_back(kind, s.skip(2))
    } else {
        seq![s[0]] + read_back(kind, s.drop_first())
    }
}

/// Reading escaped text of one character followed by more text.
proof fn lemma_read_back_step(kind: int, c: char, rest: Seq<char>)
    requires
        0 <= kind <= 2,
    ensures
        read_back(kind, escape_char(kind, c) + rest) == seq![c] + read_back(kind, rest),
{
    let s = escape_char(kind, c) + rest;
    if escape_char(kind, c).len() == 2 {
        assert(s.skip(2) =~= rest);
    } else {
        assert(s.drop_first() =~= rest);
        assert(s[0] == c);
    }
}

/// Every shell reads an escaped value back as the value itself.
pub proof fn lemma_escape_reads_back(kind: int, value: Seq<char>)
    requires
        0 <= kind <= 2,
    ensures
        read_back(kind, escaped(kind, value)) == value,
    decreases value.len(),
{
    if value.len() > 0 {
        lemma_read_back_step(kind, value[0], escaped(kind, value.drop_first()));
        lemma_escape_reads_back(kind, value.drop_first());
        assert(seq![value[0]] + value.drop_first() =~= value);
    }
}

/// The PowerShell activation script of the environment at `venv_path`, shown as `prompt_name`.
pub open spec fn powershell_activate_text(venv_path: Seq<char>, prompt_name: Seq<char>) -> Seq<char> {
    "$env:GOIDA_OLD_VENV = $env:GOIDA_VENV\n$env:GOIDA_VENV = \""@
        + escaped(0, venv_path)
        + "\"\n\nif (Test-Path Function:prompt) {\n    Copy-Item Function:prompt Function:_goida_old_prompt -Force\n}\n\nfunction global:prompt {\n    \"("@
        + escaped(0, prompt_name)
        + ") \" + $(if (Test-Path Function:_goida_old_prompt) { & _goida_old_prompt } else { \"PS $($executionContext.SessionState.Path.CurrentLocation)$('>' * ($nestedPromptLevel + 1)) \" })\n}\n\nfunction global:deactivate {\n    if ($env:GOIDA_OLD_VENV) {\n        $env:GOIDA_VENV = $env:GOIDA_OLD_VENV\n        Remove-Item Env:GOIDA_OLD_VENV -ErrorAction SilentlyContinue\n    } else {\n        Remove-Item Env:GOIDA_VENV -ErrorAction SilentlyContinue\n    }\n    if (Test-Path Function:_goida_old_prompt) {\n        Copy-Item Function:_goida_old_prompt Function:prompt -Force\n        Remove-Item Function:_goida_old_prompt -ErrorAction SilentlyContinue\n    } else {\n        Remove-Item Function:prompt -ErrorAction SilentlyContinue\n    }\n    Remove-Item Function:deactivate -ErrorAction SilentlyContinue\n}\n\nWrite-Host \"Activated Goida venv: $env:GOIDA_VENV\"\n"@
}

/// The PowerShell activation script of the environment at `venv_path`, shown as `prompt_name`.
pub fn powershell_activate(venv_path: &str, prompt_name: &str) -> (r: String)
    ensures
        r@ == powershell_activate_text(venv_path@, prompt_name@),
{
    let venv_path_text = escape_powershell_double_quoted(venv_path);
    let prompt_name_text = escape_powershell_double_quoted(prompt_name);
    let mut script = String::from_str("$env:GOIDA_OLD_VENV = $env:GOIDA_VENV\n$env:GOIDA_VENV = \"");
    script.append(venv_path_text.as_str());
    script.append("\"\n\nif (Test-Path Function:prompt) {\n    Copy-Item Function:prompt Function:_goida_old_prompt -Force\n}\n\nfunction global:prompt {\n    \"(");
    script.append(prompt_name_text.as_str());
    script.append(") \" + $(if (Test-Path Function:_goida_old_prompt) { & _goida_old_prompt } else { \"PS $($executionContext.SessionState.Path.CurrentLocation)$('>' * ($nestedPromptLevel + 1)) \" })\n}\n\nfunction global:deactivate {\n    if ($env:GOIDA_OLD_VENV) {\n        $env:GOIDA_VENV = $env:GOIDA_OLD_VENV\n        Remove-Item Env:GOIDA_OLD_VENV -ErrorAction SilentlyContinue\n    } else {\n        Remove-Item Env:GOIDA_VENV -ErrorAction SilentlyContinue\n    }\n    if (Test-Path Function:_goida_old_prompt) {\n        Copy-Item Function:_goida_old_prompt Function:prompt -Force\n        Remove-Item Function:_goida_old_prompt -ErrorAction SilentlyContinue\n    } else {\n        Remove-Item Function:prompt -ErrorAction SilentlyContinue\n    }\n    Remove-Item Function:deactivate -ErrorAction SilentlyContinue\n}\n\nWrite-Host \"Activated Goida venv: $env:GOIDA_VENV\"\n");
    script
}

/// The `cmd.exe` activation script of the environment at `venv_path`, shown as `prompt_name`.
pub open spec fn cmd_activate_text(venv_path: Seq<char>, prompt_name: Seq<char>) -> Seq<char> {
    "@echo off\r\nset GOIDA_OLD_VENV=%GOIDA_VENV%\r\nset \"GOIDA_VENV="@
        + escaped(1, venv_path)
        + "\"\r\nset \"GOIDA_OLD_PROMPT=%PROMPT%\"\r\nset \"PROMPT=("@
        + escaped(1, prompt_name)
        + ") %PROMPT%\"\r\necho Activated Goida venv: %GOIDA_VENV%\r\n"@
}

/// The `cmd.exe` activation script of the environment at `venv_path`, shown as `prompt_name`.
pub fn cmd_activate(venv_path: &str, prompt_name: &str) -> (r: String)
    ensures
        r@ == cmd_activate_text(venv_path@, prompt_name@),
{
    let venv_path_text = escape_cmd_value(venv_path);
    let prompt_name_text = escape_cmd_prompt_name(prompt_name);
    let mut script = String::from_str("@echo off\r\nset GOIDA_OLD_VENV=%GOIDA_VENV%\r\nset \"GOIDA_VENV=");
    script.append(venv_path_text.as_str());
    script.append("\"\r\nset \"GOIDA_OLD_PROMPT=%PROMPT%\"\r\nset \"PROMPT=(");
    script.append(prompt_name_text.as_str());
    script.append(") %PROMPT%\"\r\necho Activated Goida venv: %GOIDA_VENV%\r\n");
    script
}

/// The POSIX shell activation script of the environment at `venv_path`, shown as `prompt_name`.
pub open spec fn sh_activate_text(venv_path: Seq<char>, prompt_name: Seq<char>) -> Seq<char> {
    "export GOIDA_OLD_VENV=\"${GOIDA_VENV-}\"\nexport GOIDA_VENV=\""@
        + venv_path
        + "\"\nexport GOIDA_OLD_PS1=\"${PS1-}\"\nexport PS1=\"("@
        + escaped(2, prompt_name)
        + ") ${PS1-}\"\n\ndeactivate() {\n    if [ -n \"${GOIDA_OLD_VENV-}\" ]; then\n        export GOIDA_VENV=\"$GOIDA_OLD_VENV\"\n        unset GOIDA_OLD_VENV\n    else\n        unset GOIDA_VENV\n    fi\n    if [ -n \"${GOIDA_OLD_PS1+x}\" ]; then\n        export PS1=\"$GOIDA_OLD_PS1\"\n        unset GOIDA_OLD_PS1\n    fi\n    unset -f deactivate\n}\n\necho \"Activated Goida venv: $GOIDA_VENV\"\n"@
}

/// The POSIX shell activation script of the environment at `venv_path`, shown as `prompt_name`.
pub fn sh_activate(venv_path: &str, prompt_name: &str) -> (r: String)
    ensures
        r@ == sh_activate_text(venv_path@, prompt_name@),
{
    let prompt_name_text = escape_sh_double_quoted(prompt_name);
    let mut script = String::from_str("export GOIDA_OLD_VENV=\"${GOIDA_VENV-}\"\nexport GOIDA_VENV=\"");
    script.append(venv_path);
    script.append("\"\nexport GOIDA_OLD_PS1=\"${PS1-}\"\nexport PS1=\"(");
    script.append(prompt_name_text.as_str());
    script.append(") ${PS1-}\"\n\ndeactivate() {\n    if [ -n \"${GOIDA_OLD_VENV-}\" ]; then\n        export GOIDA_VENV=\"$GOIDA_OLD_VENV\"\n        unset GOIDA_OLD_VENV\n    else\n        unset GOIDA_VENV\n    fi\n    if [ -n \"${GOIDA_OLD_PS1+x}\" ]; then\n        export PS1=\"$GOIDA_OLD_PS1\"\n        unset GOIDA_OLD_PS1\n    fi\n    unset -f deactivate\n}\n\necho \"Activated Goida venv: $GOIDA_VENV\"\n");
    script
}

/// The PowerShell deactivation script.
pub open spec fn powershell_deactivate_text() -> Seq<char> {
    "if ($env:GOIDA_OLD_VENV) {\n    $env:GOIDA_VENV = $env:GOIDA_OLD_VENV\n    Remove-Item Env:GOIDA_OLD_VENV -ErrorAction SilentlyContinue\n} else {\n    Remove-Item Env:GOIDA_VENV -ErrorAction SilentlyContinue\n}\nif (Test-Path Function:_goida_old_prompt) {\n    Copy-Item Function:_goida_old_prompt Function:prompt -Force\n    Remove-Item Function:_goida_old_prompt -ErrorAction SilentlyContinue\n} else {\n    Remove-Item Function:prompt -ErrorAction SilentlyContinue\n}\nRemove-Item Function:deactivate -ErrorAction SilentlyContinue\nWrite-Host \"Deactivated Goida venv\"\n"@
}

/// The PowerShell deactivation script.
pub fn powershell_deactivate() -> (r: &'static str)
    ensures
        r@ == powershell_deactivate_text(),
{
    "if ($env:GOIDA_OLD_VENV) {\n    $env:GOIDA_VENV = $env:GOIDA_OLD_VENV\n    Remove-Item Env:GOIDA_OLD_VENV -ErrorAction SilentlyContinue\n} else {\n    Remove-Item Env:GOIDA_VENV -ErrorAction SilentlyContinue\n}\nif (Test-Path Function:_goida_old_prompt) {\n    Copy-Item Function:_goida_old_prompt Function:prompt -Force\n    Remove-Item Function:_goida_old_prompt -ErrorAction SilentlyContinue\n} else {\n    Remove-Item Function:prompt -ErrorAction SilentlyContinue\n}\nRemove-Item Function:deactivate -ErrorAction SilentlyContinue\nWrite-Host \"Deactivated Goida venv\"\n"
}

/// The `cmd.exe` deactivation script.
pub open spec fn cmd_deactivate_text() -> Seq<char> {
    "@echo off\r\nif defined GOIDA_OLD_VENV (set GOIDA_VENV=%GOIDA_OLD_VENV%) else (set GOIDA_VENV=)\r\nif defined GOIDA_OLD_PROMPT (set \"PROMPT=%GOIDA_OLD_PROMPT%\")\r\nset GOIDA_OLD_VENV=\r\nset GOIDA_OLD_PROMPT=\r\necho Deactivated Goida venv\r\n"@
}

/// The `cmd.exe` deactivation script.
pub fn cmd_deactivate() -> (r: &'static str)
    ensures
        r@ == cmd_deactivate_text(),
{
    "@echo off\r\nif defined GOIDA_OLD_VENV (set GOIDA_VENV=%GOIDA_OLD_VENV%) else (set GOIDA_VENV=)\r\nif defined GOIDA_OLD_PROMPT (set \"PROMPT=%GOIDA_OLD_PROMPT%\")\r\nset GOIDA_OLD_VENV=\r\nset GOIDA_OLD_PROMPT=\r\necho Deactivated Goida venv\r\n"
}

/// The POSIX shell deactivation script.
pub open spec fn sh_deactivate_text() -> Seq<char> {
    "if [ -n \"${GOIDA_OLD_VENV-}\" ]; then\n    export GOIDA_VENV=\"$GOIDA_OLD_VENV\"\nelse\n    unset GOIDA_VENV\nfi\nunset GOIDA_OLD_VENV\nif [ -n \"${GOIDA_OLD_PS1+x}\" ]; then\n    export PS1=\"$GOIDA_OLD_PS1\"\n    unset GOIDA_OLD_PS1\nfi\nunset -f deactivate 2>/dev/null || true\necho \"Deactivated Goida venv\"\n"@
}

/// The POSIX shell deactivation script.
pub fn sh_deactivate() -> (r: &'static str)
    ensures
        r@ == sh_deactivate_text(),
{
    "if [ -n \"${GOIDA_OLD_VENV-}\" ]; then\n    export GOIDA_VENV=\"$GOIDA_OLD_VENV\"\nelse\n    unset GOIDA_VENV\nfi\nunset GOIDA_OLD_VENV\nif [ -n \"${GOIDA_OLD_PS1+x}\" ]; then\n    export PS1=\"$GOIDA_OLD_PS1\"\n    unset GOIDA_OLD_PS1\nfi\nunset -f deactivate 2>/dev/null || true\necho \"Deactivated Goida venv\"\n"
}

} // verus!
