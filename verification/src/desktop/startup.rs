//! How the window starts: with the user's settings and queue, or in a state for a screenshot.

use vstd::prelude::*;
use super::actions::{DialogView, HistoryDialog, clear_dialog, delete_dialog};
use super::adding::{ConfirmPanel, ConfirmView};
use super::controller::{ActionBar, BarView, begun};
use super::fixture::{fixture_of, is_result_fixture, parse_ui_fixture, shows_result};
use crate::config::Config;
use crate::content_results::target::{ApiFormat, LlmConnection};
use crate::paths::{AppPaths, below, join_path};
use crate::text::{opt_view, same, text};

verus! {

/// Where the queue comes from.
#[derive(Debug, Clone, Copy, PartialEq, Eq, Structural)]
pub enum QueueSource {
    /// The user's queue: it is loaded, recovered and saved.
    Stored,
    /// One finished job with its result.
    Result,
    /// A queue that is longer than the window.
    Scroll,
    /// No job at all.
    Empty,
}

/// How the window starts.
#[derive(Debug)]
pub struct Startup {
    /// The state for a screenshot, where one is asked for.
    pub state: Option<&'static str>,
    pub queue: QueueSource,
    /// The user's directories are made, or moved from where an older version had them.
    pub migrate: bool,
    /// The user's settings are read.
    pub load_settings: bool,
    /// What an earlier run left behind is removed.
    pub clean_up: bool,
}

/// Where the queue of a state comes from.
pub open spec fn queue_of(state: Option<Seq<char>>) -> QueueSource {
    match state {
        None => QueueSource::Stored,
        Some(s) => if shows_result(s) {
            QueueSource::Result
        } else if s == "queue-scroll"@ {
            QueueSource::Scroll
        } else {
            QueueSource::Empty
        },
    }
}

/// How the window starts, given what the environment asks for. A state for a screenshot reads and
/// changes nothing of the user's; a word that is not known starts the window as usual.
pub fn plan_startup(asked: Option<&str>) -> (r: Startup)
    ensures
        ({
            let state = match asked {
                Some(w) => fixture_of(w@),
                None => None,
            };
            &&& opt_view(r.state) == state
            &&& r.queue == queue_of(state)
            &&& r.migrate == (state is None) && r.load_settings == (state is None) && r.clean_up == (state is None)
            &&& (r.queue is Stored) == (state is None)
        }),
{
    let state = match asked {
        Some(w) => parse_ui_fixture(w),
        None => None,
    };
    let queue = match state {
        None => QueueSource::Stored,
        Some(s) => {
            if is_result_fixture(s) {
                QueueSource::Result
            } else if same(s, "queue-scroll") {
                QueueSource::Scroll
            } else {
                QueueSource::Empty
            }
        },
    };
    let plain = state.is_none();
    Startup { state, queue, migrate: plain, load_settings: plain, clean_up: plain }
}

/// The settings of a state that shows a result: everything below a directory of its own, and a
/// local model.
pub open spec fn fixture_settings(c: Config, before: Config, root: Seq<char>, base_url: Seq<char>) -> bool {
    &&& c.working_dir@ == below(root, "jobs"@)
    &&& c.output_dir@ == below(root, "output"@)
    &&& c.runtime_data_dir@ == below(root, "runtime-data"@)
    &&& c.llm_enabled
    &&& c.llm_connection matches Some(l) && l.id@ == "ui-fixture-local"@ && l.name@ == "UI fixture local endpoint"@
        && l.api_format is OpenAiChatCompletions && l.base_url@ == base_url && l.model@ == "ui-fixture-model"@
    &&& c == (Config {
        working_dir: c.working_dir,
        output_dir: c.output_dir,
        runtime_data_dir: c.runtime_data_dir,
        llm_enabled: c.llm_enabled,
        llm_connection: c.llm_connection,
        ..before
    })
}

/// Turns settings into those of a state that shows a result.
pub fn isolate_settings(config: &mut Config, root: &str, base_url: &str)
    ensures
        fixture_settings(*final(config), *old(config), root@, base_url@),
{
    config.working_dir = join_path(root, "jobs");
    config.output_dir = join_path(root, "output");
    config.runtime_data_dir = join_path(root, "runtime-data");
    config.llm_enabled = true;
    config.llm_connection = Some(
        LlmConnection {
            id: text("ui-fixture-local"),
            name: text("UI fixture local endpoint"),
            api_format: ApiFormat::OpenAiChatCompletions,
            base_url: text(base_url),
            model: text("ui-fixture-model"),
        },
    );
}

/// What a state puts on the screen.
#[derive(Debug)]
pub struct FixtureScreen {
    /// The list of jobs is shown as empty.
    pub empty: bool,
    /// The made-up job that is shown.
    pub shown: String,
    pub confirm: Option<ConfirmPanel>,
    pub dialog: HistoryDialog,
    pub bar: ActionBar,
    pub result_open: bool,
    pub settings_open: bool,
}

/// The question of the state that shows it.
pub open spec fn fixture_question() -> ConfirmView {
    ConfirmView {
        video: "BV1UIFIX · P2"@,
        runtime_name: "内置 Runtime"@,
        runtime_source: "bundled"@,
        runtime_backend: "native-uv"@,
        model: "未提供"@,
        recommended: "中文、英文"@,
        limitations: "仅用于 UI fixture"@,
        error: ""@,
        ready: true,
        auto_available: true,
        language: "zh"@,
        can_create: true,
        visible: true,
    }
}

/// The title in the dialog of the state that shows it.
pub open spec fn long_title() -> Seq<char> {
    "这是一个用于验证详情滚动的超长视频标题：包含多个说话人、错误信息和任务阶段"@
}

/// What a state puts on the screen.
pub open spec fn screen_of(s: FixtureScreen, state: Seq<char>) -> bool {
    let dialog = state == "delete-confirm"@ || state == "clear-confirm"@;
    &&& s.empty == (state == "empty"@)
    &&& s.shown@ == (if state == "empty"@ || state == "confirmation"@ {
        ""@
    } else if dialog || shows_result(state) {
        "completed"@
    } else {
        state
    })
    &&& match s.confirm {
        Some(c) => state == "confirmation"@ && c@ == fixture_question(),
        None => state != "confirmation"@,
    }
    &&& s.dialog@ == (if state == "delete-confirm"@ {
        delete_dialog(None, long_title())
    } else if state == "clear-confirm"@ {
        clear_dialog(None, 3)
    } else {
        DialogView { asked: None, title: ""@, message: ""@, confirm_label: ""@, visible: false }
    })
    &&& s.bar@ == (if state == "result-regenerating"@ {
        begun("chapters"@, "正在重新生成章节…"@)
    } else {
        BarView { pending: false, kind: ""@, feedback: ""@, error: false }
    })
    &&& s.result_open == shows_result(state)
    &&& s.settings_open == (state == "settings"@)
}

fn write_question() -> (r: ConfirmPanel)
    ensures
        r@ == fixture_question(),
{
    ConfirmPanel {
        video: text("BV1UIFIX · P2"),
        runtime_name: text("内置 Runtime"),
        runtime_source: text("bundled"),
        runtime_backend: text("native-uv"),
        model: text("未提供"),
        recommended: text("中文、英文"),
        limitations: text("仅用于 UI fixture"),
        error: text(""),
        ready: true,
        auto_available: true,
        language: text("zh"),
        can_create: true,
        visible: true,
    }
}

/// What a state puts on the screen.
pub fn fixture_screen(state: &str) -> (s: FixtureScreen)
    ensures
        screen_of(s, state@),
{
    let empty = same(state, "empty");
    let confirmation = same(state, "confirmation");
    let delete = same(state, "delete-confirm");
    let clear = same(state, "clear-confirm");
    let result = is_result_fixture(state);
    let shown = if empty || confirmation {
        text("")
    } else if delete || clear || result {
        text("completed")
    } else {
        text(state)
    };
    let mut dialog = HistoryDialog::new();
    if delete {
        dialog.ask_delete(None, "这是一个用于验证详情滚动的超长视频标题：包含多个说话人、错误信息和任务阶段");
    } else if clear {
        dialog.ask_clear(None, 3);
    }
    let mut bar = ActionBar::new();
    if same(state, "result-regenerating") {
        bar.begin("chapters", "正在重新生成章节…");
    }
    FixtureScreen {
        empty,
        shown,
        confirm: if confirmation {
            Some(write_question())
        } else {
            None
        },
        dialog,
        bar,
        result_open: result,
        settings_open: same(state, "settings"),
    }
}

/// The directory that a field of the settings goes back to.
pub open spec fn usual_directory(kind: Seq<char>, paths: AppPaths) -> Seq<char> {
    if kind == "working"@ {
        paths.jobs_dir@
    } else if kind == "output"@ {
        paths.markdown_output_dir@
    } else if kind == "runtime-data"@ {
        paths.funasr_runtime_data_dir@
    } else {
        ""@
    }
}

/// The directory that a field of the settings goes back to.
pub fn default_directory(kind: &str, paths: &AppPaths) -> (r: String)
    ensures
        r@ == usual_directory(kind@, *paths),
{
    if same(kind, "working") {
        paths.jobs_dir.clone()
    } else if same(kind, "output") {
        paths.markdown_output_dir.clone()
    } else if same(kind, "runtime-data") {
        paths.funasr_runtime_data_dir.clone()
    } else {
        text("")
    }
}

/// The user's own queue is loaded where no state is asked for, and only there; a state that shows
/// a result has the job of that result, whatever result it shows.
pub proof fn the_own_queue_is_left_alone(state: Seq<char>, rest: Seq<char>)
    ensures
        queue_of(None) is Stored,
        !(queue_of(Some(state)) is Stored),
        queue_of(Some("result-"@ + rest)) is Result,
        queue_of(Some(state)) is Scroll ==> state == "queue-scroll"@,
        queue_of(Some(state)) is Empty ==> state != "queue-scroll"@,
{
    let p = "result-"@;
    assert((p + rest).subrange(0, p.len() as int) =~= p);
    if state == "queue-scroll"@ {
        reveal_strlit("queue-scroll");
        reveal_strlit("result-");
        if shows_result(state) {
            assert(state.subrange(0, 7)[0] == state[0]);
        }
    }
}

} // verus!
