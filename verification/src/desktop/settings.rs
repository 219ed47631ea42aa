//! The settings of the window, and the runtime that is installed from them.

use vstd::prelude::*;
use crate::text::{cat2, starts, starts_with, text};

verus! {

/// The settings as the window shows them, beside their values.
#[derive(Debug)]
pub struct SettingsPanel {
    pub saving: bool,
    pub feedback: String,
    pub error_field: String,
    pub error_message: String,
    pub visible: bool,
}

/// The settings as the window shows them, beside their values.
#[verifier::ext_equal]
pub struct PanelView {
    pub saving: bool,
    pub feedback: Seq<char>,
    pub error_field: Seq<char>,
    pub error_message: Seq<char>,
    pub visible: bool,
}

impl View for SettingsPanel {
    type V = PanelView;

    open spec fn view(&self) -> PanelView {
        PanelView {
            saving: self.saving,
            feedback: self.feedback@,
            error_field: self.error_field@,
            error_message: self.error_message@,
            visible: self.visible,
        }
    }
}

/// The field that an error is shown at.
pub open spec fn field_of(error: Seq<char>) -> Seq<char> {
    if starts(error, "工作目录"@) {
        "working"@
    } else if starts(error, "Markdown 输出目录"@) {
        "output"@
    } else if starts(error, "FunASR Runtime"@) {
        "funasr"@
    } else if starts(error, "Runtime 数据目录"@) {
        "runtime-data"@
    } else {
        ""@
    }
}

/// The field that an error is shown at.
pub fn settings_error_field(error: &str) -> (r: &'static str)
    ensures
        r@ == field_of(error@),
{
    if starts_with(error, "工作目录") {
        "working"
    } else if starts_with(error, "Markdown 输出目录") {
        "output"
    } else if starts_with(error, "FunASR Runtime") {
        "funasr"
    } else if starts_with(error, "Runtime 数据目录") {
        "runtime-data"
    } else {
        ""
    }
}

impl SettingsPanel {
    /// The settings before they were asked for.
    pub fn new() -> (r: SettingsPanel)
        ensures
            r@ == (PanelView { saving: false, feedback: ""@, error_field: ""@, error_message: ""@, visible: false }),
    {
        SettingsPanel {
            saving: false,
            feedback: text(""),
            error_field: text(""),
            error_message: text(""),
            visible: false,
        }
    }

    /// The user opens the settings.
    pub fn open(&mut self)
        ensures
            final(self)@ == (PanelView {
                saving: false,
                feedback: ""@,
                error_field: ""@,
                error_message: ""@,
                visible: true,
            }),
    {
        self.reset();
        self.visible = true;
    }

    /// The user leaves the settings as they were.
    pub fn reset(&mut self)
        ensures
            final(self)@ == (PanelView {
                saving: false,
                feedback: ""@,
                error_field: ""@,
                error_message: ""@,
                ..old(self)@
            }),
    {
        self.saving = false;
        self.feedback = text("");
        self.error_field = text("");
        self.error_message = text("");
    }

    /// The user saves; a second time is not begun before the first has ended.
    pub fn begin_save(&mut self) -> (go: bool)
        ensures
            go == !old(self).saving,
            final(self)@ == (if go {
                PanelView {
                    saving: true,
                    feedback: "正在保存…"@,
                    error_field: ""@,
                    error_message: ""@,
                    ..old(self)@
                }
            } else {
                old(self)@
            }),
    {
        if self.saving {
            return false;
        }
        self.saving = true;
        self.feedback = text("正在保存…");
        self.error_field = text("");
        self.error_message = text("");
        true
    }

    /// What was entered cannot be used; the settings in use stay.
    pub fn refused(&mut self, error: &str)
        ensures
            final(self)@ == (PanelView {
                saving: false,
                feedback: "保存失败："@ + error@,
                error_field: field_of(error@),
                error_message: error@,
                ..old(self)@
            }),
    {
        self.error_field = text(settings_error_field(error));
        self.error_message = text(error);
        self.saving = false;
        self.feedback = cat2("保存失败：", error);
    }

    /// The settings were written, or not.
    pub fn saved(&mut self, written: Result<(), String>)
        ensures
            final(self)@ == (match written {
                Ok(_) => PanelView { saving: false, feedback: "已保存"@, visible: false, ..old(self)@ },
                Err(e) => PanelView { saving: false, feedback: "保存失败："@ + e@, ..old(self)@ },
            }),
    {
        self.saving = false;
        match written {
            Ok(_) => {
                self.feedback = text("已保存");
                self.visible = false;
            },
            Err(e) => {
                self.feedback = cat2("保存失败：", e.as_str());
            },
        }
    }

    /// The user installs the runtime: the settings are applied and written first, and a runtime
    /// has to be chosen.
    pub fn begin_install(
        &mut self,
        applied: Result<(), String>,
        written: Result<(), String>,
        chosen: bool,
    ) -> (go: bool)
        ensures
            go == (!old(self).saving && applied is Ok && written is Ok && chosen),
            final(self)@ == (if old(self).saving {
                old(self)@
            } else {
                match (applied, written) {
                    (Err(e), _) => PanelView { feedback: "无法安装："@ + e@, ..old(self)@ },
                    (Ok(_), Err(e)) => PanelView { feedback: "配置保存失败："@ + e@, ..old(self)@ },
                    (Ok(_), Ok(_)) => if chosen {
                        PanelView { saving: true, feedback: "正在安装并验证 Runtime…"@, ..old(self)@ }
                    } else {
                        PanelView { feedback: "请先选择 Runtime 项目目录"@, ..old(self)@ }
                    },
                }
            }),
    {
        if self.saving {
            return false;
        }
        match (applied, written) {
            (Err(e), _) => {
                self.feedback = cat2("无法安装：", e.as_str());
                false
            },
            (Ok(_), Err(e)) => {
                self.feedback = cat2("配置保存失败：", e.as_str());
                false
            },
            (Ok(_), Ok(_)) => {
                if !chosen {
                    self.feedback = text("请先选择 Runtime 项目目录");
                    return false;
                }
                self.saving = true;
                self.feedback = text("正在安装并验证 Runtime…");
                true
            },
        }
    }

    /// The runtime was installed on a device, or not.
    pub fn installed(&mut self, device: Result<String, String>)
        ensures
            final(self)@ == (PanelView {
                saving: false,
                feedback: match device {
                    Ok(d) => "Runtime 已就绪："@ + d@,
                    Err(e) => "Runtime 安装失败："@ + e@,
                },
                ..old(self)@
            }),
    {
        self.saving = false;
        self.feedback = match device {
            Ok(d) => cat2("Runtime 已就绪：", d.as_str()),
            Err(e) => cat2("Runtime 安装失败：", e.as_str()),
        };
    }
}

/// An error is shown at the field that its words begin with, whatever follows them.
pub proof fn an_error_is_shown_at_its_field(rest: Seq<char>)
    ensures
        field_of("工作目录"@ + rest) == "working"@,
        field_of("Markdown 输出目录"@ + rest) == "output"@,
        field_of("FunASR Runtime"@ + rest) == "funasr"@,
        field_of("Runtime 数据目录"@ + rest) == "runtime-data"@,
{
    reveal_strlit("工作目录");
    reveal_strlit("Markdown 输出目录");
    reveal_strlit("FunASR Runtime");
    reveal_strlit("Runtime 数据目录");
    field_begins("工作目录"@, rest);
    field_begins("Markdown 输出目录"@, rest);
    field_begins("FunASR Runtime"@, rest);
    field_begins("Runtime 数据目录"@, rest);
}

proof fn field_begins(p: Seq<char>, rest: Seq<char>)
    requires
        p.len() > 0,
    ensures
        starts(p + rest, p),
        forall|q: Seq<char>| q.len() > 0 && q[0] != p[0] ==> !(#[trigger] starts(p + rest, q)),
{
    let s = p + rest;
    assert(s.subrange(0, p.len() as int) =~= p);
    assert forall|q: Seq<char>| q.len() > 0 && q[0] != p[0] implies !(#[trigger] starts(s, q)) by {
        if starts(s, q) {
            assert(s.subrange(0, q.len() as int)[0] == s[0]);
        }
    }
}

} // verus!
