//! The Hosts Editor window's state: filtering the entries, the add/edit
//! form, the table's actions, the footer, and saving.

use vstd::prelude::*;

use crate::hosts::{entries_of, EntryView, HostEntry, HostsError, HostsFile, LineView, opt_str_view};
use crate::module_confs::{holds, holds_text};
use crate::text::{
    chars_of, decimal, join, lowercase, owned, push_all, push_char, push_decimal, push_joined,
    string_of, to_lowercase, trim, trim_range, views, words, words_in,
};

verus! {

// ---------------------------------------------------------------------------
// Settings and the module
// ---------------------------------------------------------------------------

/// Where a new entry goes.
#[derive(Debug, Clone, Copy, PartialEq, Eq, Structural)]
pub enum Placement {
    Bottom,
    Top,
}

/// The Hosts Editor settings.
#[derive(Debug, Clone, Copy, PartialEq, Eq, Structural)]
pub struct HostsEditorConfig {
    pub show_disabled: bool,
    pub backup_before_save: bool,
    pub new_entry_placement: Placement,
}

/// Disabled entries are shown, and a backup taken, by default.
pub fn default_true() -> (b: bool)
    ensures
        b,
{
    true
}

impl Placement {
    /// New entries go at the bottom by default.
    pub fn default_placement() -> (p: Placement)
        ensures
            p == Placement::Bottom,
    {
        Placement::Bottom
    }
}

impl HostsEditorConfig {
    /// The defaults: disabled entries shown, a backup before saving, new
    /// entries at the bottom.
    pub fn default_config() -> (c: HostsEditorConfig)
        ensures
            c.show_disabled,
            c.backup_before_save,
            c.new_entry_placement == Placement::Bottom,
    {
        HostsEditorConfig {
            show_disabled: default_true(),
            backup_before_save: default_true(),
            new_entry_placement: Placement::default_placement(),
        }
    }
}

/// The Hosts Editor module: whether it runs, and its settings.
#[derive(Debug)]
pub struct HostsEditor {
    running: bool,
    pub config: HostsEditorConfig,
}

impl HostsEditor {
    /// A stopped module with the given settings.
    pub fn new(config: HostsEditorConfig) -> (h: HostsEditor)
        ensures
            !h.is_running_spec(),
            h.config_spec() == config,
    {
        HostsEditor { running: false, config }
    }

    /// Whether the module runs.
    pub closed spec fn is_running_spec(&self) -> bool {
        self.running
    }

    /// The module's settings.
    pub closed spec fn config_spec(&self) -> HostsEditorConfig {
        self.config
    }

    /// Starts the module with freshly read settings.
    pub fn start(&mut self, config: HostsEditorConfig)
        ensures
            final(self).is_running_spec(),
            final(self).config_spec() == config,
    {
        self.config = config;
        self.running = true;
    }

    /// Stops the module.
    pub fn stop(&mut self)
        ensures
            !final(self).is_running_spec(),
            final(self).config_spec() == old(self).config_spec(),
    {
        self.running = false;
    }

    /// Whether the module runs.
    pub fn is_running(&self) -> (b: bool)
        ensures
            b == self.is_running_spec(),
    {
        self.running
    }
}

// ---------------------------------------------------------------------------
// The window
// ---------------------------------------------------------------------------

/// The outcome of the last save.
#[derive(Debug)]
pub enum EditorStatus {
    Idle,
    Saved,
    Error(String),
}

/// How writing the file went.
#[derive(Debug)]
pub enum SaveOutcome {
    /// Written, directly or through `pkexec`.
    Saved,
    /// The copy for `pkexec` could not be written.
    TempWriteFailed(String),
    /// `pkexec` ran and exited with this code (-1 without one).
    PkexecExited(i32),
    /// `pkexec` could not be run.
    PkexecFailed(String),
    /// Writing failed for another reason than permissions.
    WriteFailed(String),
}

/// The Hosts Editor window's state.
#[derive(Debug)]
pub struct HostsEditorApp {
    pub hosts: HostsFile,
    pub config: HostsEditorConfig,
    pub filter: String,
    pub editing: Option<usize>,
    pub form_ip: String,
    pub form_hostnames: String,
    pub form_comment: String,
    pub form_enabled: bool,
    pub form_error: Option<String>,
    pub form_open: bool,
    pub unsaved_changes: bool,
    pub status: EditorStatus,
    pub frame_count: u32,
    pub confirm_delete: Option<usize>,
}

/// The form was refused: only its error changed; the lines, the entry
/// being edited, the form's fields, the flags and the status stay.
pub open spec fn only_error_set(o: HostsEditorApp, n: HostsEditorApp) -> bool {
    &&& n.hosts@ == o.hosts@
    &&& n.config == o.config
    &&& n.filter == o.filter
    &&& n.editing == o.editing
    &&& n.form_ip == o.form_ip
    &&& n.form_hostnames == o.form_hostnames
    &&& n.form_comment == o.form_comment
    &&& n.form_enabled == o.form_enabled
    &&& n.form_open == o.form_open
    &&& n.unsaved_changes == o.unsaved_changes
    &&& n.status == o.status
    &&& n.frame_count == o.frame_count
    &&& n.confirm_delete == o.confirm_delete
}

/// Whether an entry is listed under the filter `f` (already in lower case):
/// disabled entries only when they are shown, and, for a non-empty filter,
/// only entries whose address, a name or the comment holds it, in lower
/// case.
pub open spec fn entry_listed(e: EntryView, f: Seq<char>, show_disabled: bool) -> bool {
    &&& show_disabled || e.enabled
    &&& f.len() == 0 || holds(lowercase(e.ip), f) || (exists|h: int|
        0 <= h < e.hostnames.len() && holds(lowercase(#[trigger] e.hostnames[h]), f)) || (
    e.comment matches Some(c) && holds(lowercase(c), f))
}

/// The positions, in order, of the listed entries among the first `n`.
pub open spec fn listed_upto(es: Seq<EntryView>, f: Seq<char>, show_disabled: bool, n: int) -> Seq<usize>
    decreases n,
{
    if n <= 0 {
        seq![]
    } else if entry_listed(es[n - 1], f, show_disabled) {
        listed_upto(es, f, show_disabled, n - 1).push((n - 1) as usize)
    } else {
        listed_upto(es, f, show_disabled, n - 1)
    }
}

/// The positions listed among the first `n` are exactly those of the listed
/// entries.
proof fn lemma_listed_upto(es: Seq<EntryView>, f: Seq<char>, show_disabled: bool, n: int, k: int)
    requires
        0 <= n <= es.len(),
        es.len() <= usize::MAX,
        0 <= k < es.len(),
    ensures
        listed_upto(es, f, show_disabled, n).contains(k as usize) <==> (k < n && entry_listed(es[k], f, show_disabled)),
    decreases n,
{
    if n > 0 {
        lemma_listed_upto(es, f, show_disabled, n - 1, k);
        let prev = listed_upto(es, f, show_disabled, n - 1);
        if entry_listed(es[n - 1], f, show_disabled) {
            let cur = prev.push((n - 1) as usize);
            if cur.contains(k as usize) {
                let j = choose|j: int| 0 <= j < cur.len() && cur[j] == k as usize;
                if j < prev.len() {
                    assert(prev[j] == k as usize);
                }
            }
            if prev.contains(k as usize) {
                let j = choose|j: int| 0 <= j < prev.len() && prev[j] == k as usize;
                assert(cur[j] == k as usize);
            }
            if k == n - 1 {
                assert(cur[prev.len() as int] == k as usize);
            }
        }
    }
}

/// Which entries the filter lists (among as many as a `Vec` holds): an
/// entry is listed exactly when it is
/// shown (enabled, or disabled ones shown) and the filter, in lower case, is
/// empty or occurs, ignoring case, in its address, in any one of its host
/// names (not only the first), or in its comment.
pub proof fn law_filter_lists(es: Seq<EntryView>, f: Seq<char>, show_disabled: bool, k: int)
    requires
        es.len() <= usize::MAX,
        0 <= k < es.len(),
    ensures
        listed_upto(es, f, show_disabled, es.len() as int).contains(k as usize) <==> {
            &&& show_disabled || es[k].enabled
            &&& {
                ||| f.len() == 0
                ||| holds(lowercase(es[k].ip), f)
                ||| exists|h: int| 0 <= h < es[k].hostnames.len() && #[trigger] holds(lowercase(es[k].hostnames[h]), f)
                ||| es[k].comment matches Some(c) && holds(lowercase(c), f)
            }
        },
{
    lemma_listed_upto(es, f, show_disabled, es.len() as int, k);
}

/// An entry shown under the settings (among as many as a `Vec` holds) is
/// listed whenever the filter occurs,
/// ignoring case, in any one of its host names.
pub proof fn law_listed_by_any_host_name(es: Seq<EntryView>, f: Seq<char>, show_disabled: bool, k: int, h: int)
    requires
        es.len() <= usize::MAX,
        0 <= k < es.len(),
        show_disabled || es[k].enabled,
        0 <= h < es[k].hostnames.len(),
        holds(lowercase(es[k].hostnames[h]), f),
    ensures
        listed_upto(es, f, show_disabled, es.len() as int).contains(k as usize),
{
    lemma_listed_upto(es, f, show_disabled, es.len() as int, k);
}

/// The form's fields as the entry they give: the address trimmed, the
/// names split at whitespace, the comment trimmed (none when empty).
pub open spec fn form_entry(ip: Seq<char>, hostnames: Seq<char>, comment: Seq<char>, enabled: bool) -> EntryView {
    EntryView {
        ip: trim(ip),
        hostnames: words(hostnames),
        comment: if trim(comment).len() == 0 {
            None
        } else {
            Some(trim(comment))
        },
        enabled,
    }
}

/// The form is left open with no error and no changes, for the entry `e`
/// being edited at `idx` (or none).
pub open spec fn form_shows(app: HostsEditorApp, editing: Option<usize>, e: EntryView) -> bool {
    &&& app.editing == editing
    &&& app.form_ip@ == e.ip
    &&& app.form_hostnames@ == join(e.hostnames, seq![' '])
    &&& app.form_comment@ == (match e.comment {
        Some(c) => c,
        None => seq![],
    })
    &&& app.form_enabled == e.enabled
    &&& app.form_error is None
    &&& app.form_open
}

impl HostsEditorApp {
    /// A window on `hosts`: no filter, no form, nothing unsaved.
    pub fn new(config: HostsEditorConfig, hosts: HostsFile) -> (app: HostsEditorApp)
        ensures
            app.hosts@ == hosts@,
            app.config == config,
            app.filter@.len() == 0,
            app.editing is None,
            app.form_ip@.len() == 0,
            app.form_hostnames@.len() == 0,
            app.form_comment@.len() == 0,
            app.form_enabled,
            app.form_error is None,
            !app.form_open,
            !app.unsaved_changes,
            app.status is Idle,
            app.frame_count == 0,
            app.confirm_delete is None,
    {
        HostsEditorApp {
            hosts,
            config,
            filter: String::new(),
            editing: None,
            form_ip: String::new(),
            form_hostnames: String::new(),
            form_comment: String::new(),
            form_enabled: true,
            form_error: None,
            form_open: false,
            unsaved_changes: false,
            status: EditorStatus::Idle,
            frame_count: 0,
            confirm_delete: None,
        }
    }

    fn contains_lower(text: &str, f: &Vec<char>) -> (b: bool)
        ensures
            b == holds(lowercase(text@), f@),
    {
        let lower = to_lowercase(text);
        let v = chars_of(lower.as_str());
        let fs = string_of(f, 0, f.len());
        assert(f@.subrange(0, f@.len() as int) =~= f@);
        holds_text(&v, fs.as_str())
    }

    fn listed(&self, e: &HostEntry, f: &Vec<char>) -> (b: bool)
        ensures
            b == entry_listed(e@, f@, self.config.show_disabled),
    {
        if !self.config.show_disabled && !e.enabled {
            return false;
        }
        if f.len() == 0 {
            return true;
        }
        if Self::contains_lower(e.ip.as_str(), f) {
            return true;
        }
        let mut h: usize = 0;
        while h < e.hostnames.len()
            invariant
                h <= e.hostnames.len(),
                self.config.show_disabled || e.enabled,
                forall|k: int| 0 <= k < h ==> !holds(lowercase(#[trigger] e@.hostnames[k]), f@),
            decreases e.hostnames.len() - h,
        {
            if Self::contains_lower(e.hostnames[h].as_str(), f) {
                assert(e@.hostnames[h as int] == e.hostnames@[h as int]@);
                assert(holds(lowercase(e@.hostnames[h as int]), f@));
                return true;
            }
            assert(e@.hostnames[h as int] == e.hostnames@[h as int]@);
            h += 1;
        }
        match &e.comment {
            Some(c) => Self::contains_lower(c.as_str(), f),
            None => false,
        }
    }

    /// The positions of the entries listed under the filter, in order.
    pub fn filtered_indices(&self) -> (r: Vec<usize>)
        ensures
            r@ == listed_upto(
                entries_of(self.hosts@),
                lowercase(self.filter@),
                self.config.show_disabled,
                entries_of(self.hosts@).len() as int,
            ),
    {
        let lower = to_lowercase(self.filter.as_str());
        let f = chars_of(lower.as_str());
        let entries = self.hosts.entries();
        let mut r: Vec<usize> = Vec::new();
        let mut i: usize = 0;
        while i < entries.len()
            invariant
                i <= entries.len(),
                crate::hosts::entry_ref_views(entries@) == entries_of(self.hosts@),
                f@ == lowercase(self.filter@),
                r@ == listed_upto(entries_of(self.hosts@), f@, self.config.show_disabled, i as int),
            decreases entries.len() - i,
        {
            assert(entries@[i as int]@ == entries_of(self.hosts@)[i as int]);
            if self.listed(entries[i], &f) {
                r.push(i);
            }
            i += 1;
        }
        r
    }

    /// Opens the form for a new entry.
    pub fn open_add_form(&mut self)
        ensures
            final(self).hosts@ == old(self).hosts@,
            final(self).editing is None,
            final(self).form_ip@.len() == 0,
            final(self).form_hostnames@.len() == 0,
            final(self).form_comment@.len() == 0,
            final(self).form_enabled,
            final(self).form_error is None,
            final(self).form_open,
            final(self).unsaved_changes == old(self).unsaved_changes,
    {
        self.editing = None;
        self.form_ip = String::new();
        self.form_hostnames = String::new();
        self.form_comment = String::new();
        self.form_enabled = true;
        self.form_error = None;
        self.form_open = true;
    }

    /// Opens the form on the entry at `entry_index`; nothing happens when
    /// there is none.
    pub fn open_edit_form(&mut self, entry_index: usize)
        ensures
            final(self).hosts@ == old(self).hosts@,
            final(self).unsaved_changes == old(self).unsaved_changes,
            entry_index < entries_of(old(self).hosts@).len() ==> form_shows(
                *final(self),
                Some(entry_index),
                entries_of(old(self).hosts@)[entry_index as int],
            ),
            entry_index >= entries_of(old(self).hosts@).len() ==> *final(self) == *old(self),
    {
        let entries = self.hosts.entries();
        if entry_index < entries.len() {
            let e = entries[entry_index];
            assert(e@ == entries_of(self.hosts@)[entry_index as int]);
            let ip = e.ip.clone();
            let mut names = String::new();
            push_joined(&mut names, &e.hostnames, ' ');
            let comment = match &e.comment {
                Some(c) => c.clone(),
                None => String::new(),
            };
            let enabled = e.enabled;
            self.editing = Some(entry_index);
            self.form_ip = ip;
            self.form_hostnames = names;
            self.form_comment = comment;
            self.form_enabled = enabled;
            self.form_error = None;
            self.form_open = true;
        }
    }

    /// Closes the form.
    pub fn close_form(&mut self)
        ensures
            final(self).hosts@ == old(self).hosts@,
            final(self).unsaved_changes == old(self).unsaved_changes,
            !final(self).form_open,
            final(self).editing is None,
            final(self).form_error is None,
    {
        self.form_open = false;
        self.editing = None;
        self.form_error = None;
    }

    /// Checks the form and applies it: an edited entry takes the form's
    /// fields (and its state, toggled when it differs); a new one goes at
    /// the configured end. A missing address or name keeps the form open
    /// with an error.
    pub fn validate_and_apply_form(&mut self)
        ensures
            ({
                let fe = form_entry(old(self).form_ip@, old(self).form_hostnames@, old(self).form_comment@, old(self).form_enabled);
                let es = entries_of(old(self).hosts@);
                if fe.ip.len() == 0 {
                    &&& only_error_set(*old(self), *final(self))
                    &&& opt_str_view(final(self).form_error) == Some("IP address is required"@)
                } else if fe.hostnames.len() == 0 {
                    &&& only_error_set(*old(self), *final(self))
                    &&& opt_str_view(final(self).form_error) == Some("At least one hostname is required"@)
                } else {
                    match old(self).editing {
                        Some(idx) => if idx < es.len() {
                            &&& final(self).hosts@ == old(self).hosts@.update(
                                crate::hosts::entry_positions(old(self).hosts@)[idx as int],
                                LineView::Entry(fe),
                            )
                            &&& entries_of(final(self).hosts@) == es.update(idx as int, fe)
                            &&& final(self).unsaved_changes
                            &&& !final(self).form_open
                            &&& final(self).editing is None
                            &&& final(self).form_error is None
                        } else {
                            &&& only_error_set(*old(self), *final(self))
                            &&& opt_str_view(final(self).form_error) == Some("Failed to update: "@ + crate::hosts::out_of_range_text(idx as nat, es.len()))
                        },
                        None => {
                            &&& final(self).hosts@ == (match old(self).config.new_entry_placement {
                                Placement::Top => seq![LineView::Entry(crate::hosts::new_entry(fe.ip, fe.hostnames, fe.comment))] + old(self).hosts@,
                                Placement::Bottom => old(self).hosts@.push(LineView::Entry(crate::hosts::new_entry(fe.ip, fe.hostnames, fe.comment))),
                            })
                            &&& entries_of(final(self).hosts@) == (match old(self).config.new_entry_placement {
                                Placement::Top => seq![crate::hosts::new_entry(fe.ip, fe.hostnames, fe.comment)] + es,
                                Placement::Bottom => es.push(crate::hosts::new_entry(fe.ip, fe.hostnames, fe.comment)),
                            })
                            &&& final(self).unsaved_changes
                            &&& !final(self).form_open
                            &&& final(self).editing is None
                            &&& final(self).form_error is None
                        },
                    }
                }
            }),
    {
        let ipv = chars_of(self.form_ip.as_str());
        let (a, b) = trim_range(&ipv, 0, ipv.len());
        assert(ipv@.subrange(0, ipv.len() as int) =~= self.form_ip@);
        let ip = string_of(&ipv, a, b);
        if a == b {
            self.form_error = Some(owned("IP address is required"));
            return;
        }
        let hv = chars_of(self.form_hostnames.as_str());
        assert(hv@.subrange(0, hv.len() as int) =~= self.form_hostnames@);
        let hostnames = words_in(&hv, 0, hv.len());
        if hostnames.len() == 0 {
            self.form_error = Some(owned("At least one hostname is required"));
            return;
        }
        let cv = chars_of(self.form_comment.as_str());
        let (ca, cb) = trim_range(&cv, 0, cv.len());
        assert(cv@.subrange(0, cv.len() as int) =~= self.form_comment@);
        let comment = if ca == cb {
            None
        } else {
            Some(string_of(&cv, ca, cb))
        };
        let enabled = self.form_enabled;
        let ghost fe = form_entry(self.form_ip@, self.form_hostnames@, self.form_comment@, enabled);
        assert(ip@ == fe.ip);
        assert(views(hostnames@) == fe.hostnames);
        assert(opt_str_view(comment) == fe.comment);
        let ghost ls = self.hosts@;
        let ghost es = entries_of(ls);
        match self.editing {
            Some(idx) => {
                match self.hosts.update_entry(idx, ip, hostnames, comment) {
                    Err(e) => {
                        let mut m = owned("Failed to update: ");
                        let t = e.message();
                        push_all(&mut m, t.as_str());
                        self.form_error = Some(m);
                        return;
                    },
                    Ok(()) => {},
                }
                let ghost ls2 = self.hosts@;
                proof {
                    assert(idx < es.len());
                    crate::hosts::law_edit_changes_one_entry(ls, idx as int, fe.ip, fe.hostnames, fe.comment);
                    assert(ls2 == crate::hosts::edited(ls, idx as int, fe.ip, fe.hostnames, fe.comment));
                    assert(entries_of(ls2).len() == es.len());
                }
                let current = {
                    let entries = self.hosts.entries();
                    assert(entries@[idx as int]@ == entries_of(self.hosts@)[idx as int]);
                    entries[idx].enabled
                };
                proof {
                    crate::hosts::law_edit_and_flag(ls, idx as int, fe);
                }
                if current != enabled {
                    let _ = self.hosts.toggle_entry(idx);
                    proof {
                        crate::hosts::law_toggle_changes_one_entry(ls2, idx as int);
                        assert(entries_of(self.hosts@) =~= es.update(idx as int, fe));
                    }
                } else {
                    assert(entries_of(self.hosts@) =~= es.update(idx as int, fe));
                }
            },
            None => {
                match self.config.new_entry_placement {
                    Placement::Top => {
                        self.hosts.add_entry_at_top(ip, hostnames, comment);
                        proof {
                            crate::hosts::law_add_entry_at_top(ls, crate::hosts::new_entry(fe.ip, fe.hostnames, fe.comment));
                        }
                    },
                    Placement::Bottom => {
                        self.hosts.add_entry(ip, hostnames, comment);
                        proof {
                            crate::hosts::law_add_entry(ls, crate::hosts::new_entry(fe.ip, fe.hostnames, fe.comment));
                        }
                    },
                }
            },
        }
        self.unsaved_changes = true;
        self.close_form();
    }

    /// Flips the entry at `idx`, marking the file changed.
    pub fn toggle_at(&mut self, idx: usize)
        ensures
            final(self).unsaved_changes,
            idx < entries_of(old(self).hosts@).len() ==> final(self).hosts@ == crate::hosts::toggled(old(self).hosts@, idx as int),
            idx >= entries_of(old(self).hosts@).len() ==> final(self).hosts@ == old(self).hosts@,
    {
        let _ = self.hosts.toggle_entry(idx);
        self.unsaved_changes = true;
    }

    /// Asks to confirm deleting the entry at `idx`.
    pub fn request_delete(&mut self, idx: usize)
        ensures
            final(self).confirm_delete == Some(idx),
            final(self).hosts@ == old(self).hosts@,
    {
        self.confirm_delete = Some(idx);
    }

    /// Drops the request to delete.
    pub fn cancel_delete(&mut self)
        ensures
            final(self).confirm_delete is None,
            final(self).hosts@ == old(self).hosts@,
    {
        self.confirm_delete = None;
    }

    /// Deletes the entry at `idx`, marking the file changed.
    pub fn delete_at(&mut self, idx: usize)
        ensures
            final(self).unsaved_changes,
            final(self).confirm_delete is None,
            idx < entries_of(old(self).hosts@).len() ==> final(self).hosts@ == old(self).hosts@.remove(
                crate::hosts::entry_positions(old(self).hosts@)[idx as int],
            ),
            idx >= entries_of(old(self).hosts@).len() ==> final(self).hosts@ == old(self).hosts@,
    {
        let _ = self.hosts.remove_entry(idx);
        self.unsaved_changes = true;
        self.confirm_delete = None;
    }

    /// Counts a frame, saturating.
    pub fn count_frame(&mut self)
        ensures
            final(self).frame_count == (if old(self).frame_count == u32::MAX {
                u32::MAX as int
            } else {
                old(self).frame_count + 1
            }),
            final(self).hosts@ == old(self).hosts@,
    {
        self.frame_count = self.frame_count.saturating_add(1);
    }

    /// The footer's counts: entries, active ones, disabled ones.
    pub fn footer_counts(&self) -> (c: (usize, usize, usize))
        ensures
            c.0 == entries_of(self.hosts@).len(),
            c.1 == entries_of(self.hosts@).filter(|e: EntryView| e.enabled).len(),
            c.0 == c.1 + c.2,
    {
        let entries = self.hosts.entries();
        let ghost es = entries_of(self.hosts@);
        let mut active: usize = 0;
        let mut i: usize = 0;
        proof {
            reveal(Seq::filter);
            assert(es.take(0) =~= Seq::<EntryView>::empty());
        }
        while i < entries.len()
            invariant
                i <= entries.len(),
                crate::hosts::entry_ref_views(entries@) == es,
                active == es.take(i as int).filter(|e: EntryView| e.enabled).len(),
                active <= i,
            decreases entries.len() - i,
        {
            proof {
                reveal(Seq::filter);
                assert(es.take(i + 1).drop_last() =~= es.take(i as int));
                assert(es.take(i + 1).last() == entries@[i as int]@);
            }
            if entries[i].enabled {
                active += 1;
            }
            i += 1;
        }
        assert(es.take(i as int) =~= es);
        (entries.len(), active, entries.len() - active)
    }

    /// The footer's text: "N entries (A active, D disabled)".
    pub fn footer_text(&self) -> (s: String)
        ensures
            ({
                let total = entries_of(self.hosts@).len();
                let active = entries_of(self.hosts@).filter(|e: EntryView| e.enabled).len();
                s@ == decimal(total) + " entries ("@ + decimal(active) + " active, "@ + decimal(
                    (total - active) as nat,
                ) + " disabled)"@
            }),
    {
        let (total, active, disabled) = self.footer_counts();
        let mut s = String::new();
        push_decimal(&mut s, total as u64);
        push_all(&mut s, " entries (");
        push_decimal(&mut s, active as u64);
        push_all(&mut s, " active, ");
        push_decimal(&mut s, disabled as u64);
        push_all(&mut s, " disabled)");
        s
    }

    /// The save button's label: starred while changes are unsaved.
    pub fn save_label(&self) -> (s: &'static str)
        ensures
            s@ == (if self.unsaved_changes {
                "Save File *"@
            } else {
                "Save File"@
            }),
    {
        if self.unsaved_changes {
            "Save File *"
        } else {
            "Save File"
        }
    }

    /// The text to write, and where to back the file up first (when backups
    /// are on), given the time in seconds since 1970.
    pub fn save_plan(&self, now_secs: u64) -> (p: (String, Option<String>))
        ensures
            p.0@ == crate::hosts::file_text(self.hosts@),
            self.config.backup_before_save ==> p.1 is Some && p.1->0@ == "/tmp/hosts.mpt-backup-"@ + timestamp_of(now_secs as nat),
            !self.config.backup_before_save ==> p.1 is None,
    {
        let content = self.hosts.serialize();
        if self.config.backup_before_save {
            let mut path = owned("/tmp/hosts.mpt-backup-");
            let t = chrono_timestamp(now_secs);
            push_all(&mut path, t.as_str());
            (content, Some(path))
        } else {
            (content, None)
        }
    }

    /// Records how saving went: saved clears the changes; a failure keeps
    /// them and says why.
    pub fn save_finished(&mut self, outcome: SaveOutcome)
        ensures
            final(self).hosts@ == old(self).hosts@,
            match outcome {
                SaveOutcome::Saved => !final(self).unsaved_changes && final(self).status is Saved,
                SaveOutcome::TempWriteFailed(e) => final(self).unsaved_changes == old(self).unsaved_changes
                    && status_error(final(self).status) == Some("Failed to write temp file: "@ + e@),
                SaveOutcome::PkexecExited(code) => final(self).unsaved_changes == old(self).unsaved_changes
                    && status_error(final(self).status) == Some("pkexec exited with code "@ + signed_decimal(code as int)),
                SaveOutcome::PkexecFailed(e) => final(self).unsaved_changes == old(self).unsaved_changes
                    && status_error(final(self).status) == Some("pkexec failed: "@ + e@),
                SaveOutcome::WriteFailed(e) => final(self).unsaved_changes == old(self).unsaved_changes
                    && status_error(final(self).status) == Some("Save failed: "@ + e@),
            },
    {
        match outcome {
            SaveOutcome::Saved => {
                self.unsaved_changes = false;
                self.status = EditorStatus::Saved;
            },
            SaveOutcome::TempWriteFailed(e) => {
                let mut m = owned("Failed to write temp file: ");
                push_all(&mut m, e.as_str());
                self.status = EditorStatus::Error(m);
            },
            SaveOutcome::PkexecExited(code) => {
                let mut m = owned("pkexec exited with code ");
                push_signed(&mut m, code);
                self.status = EditorStatus::Error(m);
            },
            SaveOutcome::PkexecFailed(e) => {
                let mut m = owned("pkexec failed: ");
                push_all(&mut m, e.as_str());
                self.status = EditorStatus::Error(m);
            },
            SaveOutcome::WriteFailed(e) => {
                let mut m = owned("Save failed: ");
                push_all(&mut m, e.as_str());
                self.status = EditorStatus::Error(m);
            },
        }
    }

    /// The footer's message about the last save: "Saved!", "Error: ...", or
    /// nothing.
    pub fn status_text(&self) -> (s: Option<String>)
        ensures
            match self.status {
                EditorStatus::Idle => s is None,
                EditorStatus::Saved => s is Some && s->0@ == "Saved!"@,
                EditorStatus::Error(e) => s is Some && s->0@ == "Error: "@ + e@,
            },
    {
        match &self.status {
            EditorStatus::Idle => None,
            EditorStatus::Saved => Some(owned("Saved!")),
            EditorStatus::Error(e) => {
                let mut m = owned("Error: ");
                push_all(&mut m, e.as_str());
                Some(m)
            },
        }
    }
}

/// The message of a failed save.
pub open spec fn status_error(s: EditorStatus) -> Option<Seq<char>> {
    match s {
        EditorStatus::Error(m) => Some(m@),
        _ => None,
    }
}

/// A whole number written in decimal, with a `-` when negative.
pub open spec fn signed_decimal(v: int) -> Seq<char> {
    if v < 0 {
        seq!['-'] + decimal((-v) as nat)
    } else {
        decimal(v as nat)
    }
}

fn push_signed(s: &mut String, v: i32)
    ensures
        final(s)@ == old(s)@ + signed_decimal(v as int),
{
    if v < 0 {
        push_char(s, '-');
        let m: u64 = (-(v as i64)) as u64;
        push_decimal(s, m);
        assert(final(s)@ =~= old(s)@ + signed_decimal(v as int));
    } else {
        push_decimal(s, v as u64);
    }
}

/// `n` written in decimal, with zeros in front up to `width` digits.
pub open spec fn padded(n: nat, width: nat) -> Seq<char> {
    let d = decimal(n);
    if d.len() < width {
        Seq::new((width - d.len()) as nat, |i: int| '0') + d
    } else {
        d
    }
}

fn push_padded(s: &mut String, n: u64, width: usize)
    ensures
        final(s)@ == old(s)@ + padded(n as nat, width as nat),
{
    let mut d = String::new();
    push_decimal(&mut d, n);
    let dv = chars_of(d.as_str());
    let mut k: usize = dv.len();
    let ghost start = s@;
    while k < width
        invariant
            dv.len() <= k <= width || (k == dv.len() && dv.len() >= width),
            dv@ == decimal(n as nat),
            s@ == start + Seq::new((k - dv.len()) as nat, |i: int| '0'),
        decreases width - k,
    {
        push_char(s, '0');
        assert(s@ =~= start + Seq::new((k + 1 - dv.len()) as nat, |i: int| '0'));
        k += 1;
    }
    push_all(s, d.as_str());
    proof {
        if dv.len() < width {
            assert(s@ =~= start + padded(n as nat, width as nat));
        } else {
            assert(Seq::new((k - dv.len()) as nat, |i: int| '0') =~= Seq::<char>::empty());
            assert(s@ =~= start + padded(n as nat, width as nat));
        }
    }
}

/// The backup's time stamp for `secs` seconds since 1970: year, month,
/// day, hours, minutes and seconds, each padded (the calendar counts
/// 365-day years of twelve 30-day months and a few days more).
pub open spec fn timestamp_of(secs: nat) -> Seq<char> {
    let s = secs % 60;
    let m = (secs / 60) % 60;
    let h = (secs / 3600) % 24;
    let days = secs / 86400;
    let year = 1970 + days / 365;
    let doy = days % 365;
    let month = doy / 30 + 1;
    let day = doy % 30 + 1;
    padded(year, 4) + padded(month, 2) + padded(day, 2) + padded(h, 2) + padded(m, 2) + padded(s, 2)
}

/// The backup's time stamp for `secs` seconds since 1970.
pub fn chrono_timestamp(secs: u64) -> (t: String)
    ensures
        t@ == timestamp_of(secs as nat),
{
    let s = secs % 60;
    let m = (secs / 60) % 60;
    let h = (secs / 3600) % 24;
    let days = secs / 86400;
    let year = 1970 + days / 365;
    let day_of_year = days % 365;
    let month = day_of_year / 30 + 1;
    let day = day_of_year % 30 + 1;
    let mut t = String::new();
    push_padded(&mut t, year, 4);
    push_padded(&mut t, month, 2);
    push_padded(&mut t, day, 2);
    push_padded(&mut t, h, 2);
    push_padded(&mut t, m, 2);
    push_padded(&mut t, s, 2);
    assert(t@ =~= timestamp_of(secs as nat));
    t
}

} // verus!
