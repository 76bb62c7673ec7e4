//! The round-trip law of the settings codec: parsing a rendered snapshot
//! gives the snapshot back, whatever it holds.

use vstd::prelude::*;
use crate::codec::{
    bool_member, colsp, lemma_bool_at, lemma_int_at, lemma_matches_split, lemma_string_at,
    lemma_ws_at, is_ws, is_digit, matches_at, nl2, nl4, nl6, notif_acc_empty, notif_finish,
    fields_acc_empty, fields_finish, lemma_uint_chars, quoted, render_bool, render_int,
    render_notif, render_tab, renderable, text_ok, uint_chars,
    render_tabs, render_tabs_items, render_settings_model, sp_bool, sp_int, sp_members,
    sp_notif_after, sp_notif_members, sp_notif_obj, sp_settings_doc, sp_settings_obj, sp_string,
    sp_tab_after, sp_tab_members, sp_tab_obj, sp_tabs_arr, sp_tabs_items, sp_after, sp_ws,
    tab_member, top_member, FieldsAcc, NotifAcc, TabAcc,
};
use crate::notification::NotificationSettings;
use crate::settings::{SettingsModel, TabModel};

verus! {

broadcast use vstd::string::group_string_axioms;

proof fn lemma_ws_none(doc: Seq<char>, p: int)
    requires
        0 <= p,
        p == doc.len() || !is_ws(doc[p]),
    ensures
        sp_ws(doc, p) == p,
{
}

/// The facts a member parser needs about one `"key": ` lead-in followed by a
/// value piece `v`, rendered with line break `w` before the key.
proof fn lemma_member_prefix(doc: Seq<char>, p: int, w: Seq<char>, key: Seq<char>, v: Seq<char>)
    requires
        matches_at(doc, p, w + quoted(key) + colsp() + v),
        forall|k: int| 0 <= k < w.len() ==> is_ws(w[k]),
        text_ok(key),
        v.len() > 0,
        !is_ws(v[0]),
    ensures
        sp_ws(doc, p) == p + w.len(),
        sp_string(doc, p + w.len()) == Some((key, p + w.len() + quoted(key).len())),
        sp_ws(doc, p + w.len() + quoted(key).len()) == p + w.len() + quoted(key).len(),
        p + w.len() + quoted(key).len() < doc.len(),
        doc[p + w.len() + quoted(key).len()] == ':',
        sp_ws(doc, p + w.len() + quoted(key).len() + 1) == p + w.len() + quoted(key).len() + 2,
        matches_at(doc, p + w.len() + quoted(key).len() + 2, v),
        (w + quoted(key) + colsp() + v).len() == w.len() + quoted(key).len() + 2 + v.len(),
{
    lemma_matches_split(doc, p, w + quoted(key) + colsp(), v);
    lemma_matches_split(doc, p, w + quoted(key), colsp());
    lemma_matches_split(doc, p, w, quoted(key));
    let pq = p + w.len();
    let pc = pq + quoted(key).len();
    assert(doc.subrange(pq, pq + quoted(key).len() as int)[0] == doc[pq]);
    assert(quoted(key)[0] == '"');
    assert(!is_ws(doc[pq]));
    lemma_ws_at(doc, p, w);
    lemma_string_at(doc, pq, key);
    assert(doc.subrange(pc, pc + 2)[0] == doc[pc]);
    assert(doc.subrange(pc, pc + 2)[1] == doc[pc + 1]);
    assert(doc[pc] == ':' && doc[pc + 1] == ' ');
    lemma_ws_none(doc, pc);
    assert(doc.subrange(pc + 2, pc + 2 + v.len() as int)[0] == doc[pc + 2]);
    assert(doc[pc + 2] == v[0]);
    assert(matches_at(doc, pc + 1, seq![' '])) by {
        assert(doc.subrange(pc + 1, pc + 2) =~= seq![' ']);
    }
    lemma_ws_at(doc, pc + 1, seq![' ']);
}

/// Parsing one rendered boolean member of the notification object.
proof fn lemma_bool_member_at(doc: Seq<char>, p: int, key: Seq<char>, b: bool)
    requires
        matches_at(doc, p, bool_member(key, b)),
        text_ok(key),
    ensures
        sp_ws(doc, p) == p + 5,
        sp_string(doc, p + 5) == Some((key, p + 5 + quoted(key).len())),
        sp_ws(doc, p + 5 + quoted(key).len()) == p + 5 + quoted(key).len(),
        p + 5 + quoted(key).len() < doc.len(),
        doc[p + 5 + quoted(key).len()] == ':',
        sp_ws(doc, p + 5 + quoted(key).len() + 1) == p + 5 + quoted(key).len() + 2,
        sp_bool(doc, p + 5 + quoted(key).len() + 2) == Some((b, p + bool_member(key, b).len())),
        bool_member(key, b).len() == 7 + quoted(key).len() + render_bool(b).len(),
{
    assert(!is_ws(render_bool(b)[0]));
    lemma_member_prefix(doc, p, nl4(), key, render_bool(b));
    lemma_bool_at(doc, p + 5 + quoted(key).len() + 2, b);
}

/// Parsing the rendered notification object gives the configuration back.
#[verifier::rlimit(100)]
pub proof fn lemma_notif_at(doc: Seq<char>, i: int, n: NotificationSettings)
    requires
        matches_at(doc, i, render_notif(n)),
    ensures
        sp_notif_obj(doc, i) == Some((n, i + render_notif(n).len())),
{
    reveal_strlit("enabled");
    reveal_strlit("show_message_notifications");
    reveal_strlit("show_call_notifications");
    reveal_strlit("sound_enabled");
    reveal_strlit("show_sender");
    assert(text_ok("enabled"@));
    assert(text_ok("show_message_notifications"@));
    assert(text_ok("show_call_notifications"@));
    assert(text_ok("sound_enabled"@));
    assert(text_ok("show_sender"@));
    let m1 = bool_member("enabled"@, n.enabled);
    let m2 = bool_member("show_message_notifications"@, n.show_message_notifications);
    let m3 = bool_member("show_call_notifications"@, n.show_call_notifications);
    let m4 = bool_member("sound_enabled"@, n.sound_enabled);
    let m5 = bool_member("show_sender"@, n.show_sender);
    let r = render_notif(n);
    lemma_matches_split(
        doc,
        i,
        seq!['{'] + m1 + seq![','] + m2 + seq![','] + m3 + seq![','] + m4 + seq![','] + m5 + nl2(),
        seq!['}'],
    );
    lemma_matches_split(
        doc,
        i,
        seq!['{'] + m1 + seq![','] + m2 + seq![','] + m3 + seq![','] + m4 + seq![','] + m5,
        nl2(),
    );
    lemma_matches_split(
        doc,
        i,
        seq!['{'] + m1 + seq![','] + m2 + seq![','] + m3 + seq![','] + m4 + seq![','],
        m5,
    );
    lemma_matches_split(
        doc,
        i,
        seq!['{'] + m1 + seq![','] + m2 + seq![','] + m3 + seq![','] + m4,
        seq![','],
    );
    lemma_matches_split(doc, i, seq!['{'] + m1 + seq![','] + m2 + seq![','] + m3 + seq![','], m4);
    lemma_matches_split(doc, i, seq!['{'] + m1 + seq![','] + m2 + seq![','] + m3, seq![',']);
    lemma_matches_split(doc, i, seq!['{'] + m1 + seq![','] + m2 + seq![','], m3);
    lemma_matches_split(doc, i, seq!['{'] + m1 + seq![','] + m2, seq![',']);
    lemma_matches_split(doc, i, seq!['{'] + m1 + seq![','], m2);
    lemma_matches_split(doc, i, seq!['{'] + m1, seq![',']);
    lemma_matches_split(doc, i, seq!['{'], m1);
    assert(doc.subrange(i, i + 1)[0] == doc[i]);
    assert(doc[i] == '{');
    let p1 = i + 1;
    let p2 = p1 + m1.len();
    let p3 = p2 + 1 + m2.len();
    let p4 = p3 + 1 + m3.len();
    let p5 = p4 + 1 + m4.len();
    let p6 = p5 + 1 + m5.len();
    assert(matches_at(doc, p2, seq![',']));
    assert(doc.subrange(p2, p2 + 1)[0] == doc[p2]);
    assert(doc[p2] == ',');
    assert(doc.subrange(p3, p3 + 1)[0] == doc[p3]);
    assert(doc[p3] == ',');
    assert(doc.subrange(p4, p4 + 1)[0] == doc[p4]);
    assert(doc[p4] == ',');
    assert(doc.subrange(p5, p5 + 1)[0] == doc[p5]);
    assert(doc[p5] == ',');
    lemma_bool_member_at(doc, p1, "enabled"@, n.enabled);
    lemma_bool_member_at(doc, p2 + 1, "show_message_notifications"@, n.show_message_notifications);
    lemma_bool_member_at(doc, p3 + 1, "show_call_notifications"@, n.show_call_notifications);
    lemma_bool_member_at(doc, p4 + 1, "sound_enabled"@, n.sound_enabled);
    lemma_bool_member_at(doc, p5 + 1, "show_sender"@, n.show_sender);
    let f0 = notif_acc_empty();
    let f1 = NotifAcc { enabled: Some(n.enabled), ..f0 };
    let f2 = NotifAcc { show_message_notifications: Some(n.show_message_notifications), ..f1 };
    let f3 = NotifAcc { show_call_notifications: Some(n.show_call_notifications), ..f2 };
    let f4 = NotifAcc { sound_enabled: Some(n.sound_enabled), ..f3 };
    let f5 = NotifAcc { show_sender: Some(n.show_sender), ..f4 };
    assert(sp_notif_members(doc, p1, f0) == sp_notif_after(doc, p2, f1));
    lemma_ws_none(doc, p2);
    assert(sp_notif_after(doc, p2, f1) == sp_notif_members(doc, p2 + 1, f1));
    assert(sp_notif_members(doc, p2 + 1, f1) == sp_notif_after(doc, p3, f2));
    lemma_ws_none(doc, p3);
    assert(sp_notif_after(doc, p3, f2) == sp_notif_members(doc, p3 + 1, f2));
    assert(sp_notif_members(doc, p3 + 1, f2) == sp_notif_after(doc, p4, f3));
    lemma_ws_none(doc, p4);
    assert(sp_notif_after(doc, p4, f3) == sp_notif_members(doc, p4 + 1, f3));
    assert(sp_notif_members(doc, p4 + 1, f3) == sp_notif_after(doc, p5, f4));
    lemma_ws_none(doc, p5);
    assert(sp_notif_after(doc, p5, f4) == sp_notif_members(doc, p5 + 1, f4));
    assert(sp_notif_members(doc, p5 + 1, f4) == sp_notif_after(doc, p6, f5));
    assert(matches_at(doc, p6, nl2()));
    assert(doc.subrange(p6 + 3, p6 + 4)[0] == doc[p6 + 3]);
    assert(doc[p6 + 3] == '}');
    lemma_ws_at(doc, p6, nl2());
    assert(sp_notif_after(doc, p6, f5) == Some((f5, p6 + 4)));
    assert(notif_finish(f5) == n);
    assert(sp_ws(doc, p1) == p1 + 5);
    assert(doc[p1 + 5] == '"') by {
        assert(doc.subrange(p1 + 5, p1 + 5 + quoted("enabled"@).len() as int)[0] == doc[p1 + 5]);
        assert(quoted("enabled"@)[0] == '"');
    }
    assert(sp_notif_obj(doc, i) == Some((n, p6 + 4)));
    assert(p6 + 4 == i + r.len());
}

/// Parsing one rendered string member of a tab object.
proof fn lemma_tab_member_at(doc: Seq<char>, p: int, key: Seq<char>, s: Seq<char>)
    requires
        matches_at(doc, p, tab_member(key, s)),
        text_ok(key),
        text_ok(s),
    ensures
        sp_ws(doc, p) == p + 7,
        sp_string(doc, p + 7) == Some((key, p + 7 + quoted(key).len())),
        sp_ws(doc, p + 7 + quoted(key).len()) == p + 7 + quoted(key).len(),
        p + 7 + quoted(key).len() < doc.len(),
        doc[p + 7 + quoted(key).len()] == ':',
        sp_ws(doc, p + 7 + quoted(key).len() + 1) == p + 7 + quoted(key).len() + 2,
        sp_string(doc, p + 7 + quoted(key).len() + 2) == Some((s, p + tab_member(key, s).len())),
        tab_member(key, s).len() == 9 + quoted(key).len() + quoted(s).len(),
{
    assert(quoted(s)[0] == '"');
    assert(!is_ws(quoted(s)[0]));
    assert(quoted(s).len() >= 2);
    lemma_member_prefix(doc, p, nl6(), key, quoted(s));
    lemma_string_at(doc, p + 7 + quoted(key).len() + 2, s);
}

/// Parsing one rendered tab object gives the tab back.
#[verifier::rlimit(100)]
pub proof fn lemma_tab_at(doc: Seq<char>, i: int, t: TabModel)
    requires
        matches_at(doc, i, render_tab(t)),
        text_ok(t.name),
        text_ok(t.icon),
    ensures
        sp_tab_obj(doc, i) == Some((t, i + render_tab(t).len())),
{
    reveal_strlit("name");
    reveal_strlit("icon");
    assert(text_ok("name"@));
    assert(text_ok("icon"@));
    let m1 = tab_member("name"@, t.name);
    let m2 = tab_member("icon"@, t.icon);
    let r = render_tab(t);
    lemma_matches_split(doc, i, seq!['{'] + m1 + seq![','] + m2 + nl4(), seq!['}']);
    lemma_matches_split(doc, i, seq!['{'] + m1 + seq![','] + m2, nl4());
    lemma_matches_split(doc, i, seq!['{'] + m1 + seq![','], m2);
    lemma_matches_split(doc, i, seq!['{'] + m1, seq![',']);
    lemma_matches_split(doc, i, seq!['{'], m1);
    assert(doc.subrange(i, i + 1)[0] == doc[i]);
    assert(doc[i] == '{');
    let p1 = i + 1;
    let p2 = p1 + m1.len();
    let p3 = p2 + 1 + m2.len();
    assert(doc.subrange(p2, p2 + 1)[0] == doc[p2]);
    assert(doc[p2] == ',');
    lemma_tab_member_at(doc, p1, "name"@, t.name);
    lemma_tab_member_at(doc, p2 + 1, "icon"@, t.icon);
    let f0 = TabAcc { name: None, icon: None, skipped: 0 };
    let f1 = TabAcc { name: Some(t.name), icon: None, skipped: 0 };
    let f2 = TabAcc { name: Some(t.name), icon: Some(t.icon), skipped: 0 };
    assert(sp_tab_members(doc, p1, f0) == sp_tab_after(doc, p2, f1));
    lemma_ws_none(doc, p2);
    assert(sp_tab_after(doc, p2, f1) == sp_tab_members(doc, p2 + 1, f1));
    assert(sp_tab_members(doc, p2 + 1, f1) == sp_tab_after(doc, p3, f2));
    assert(matches_at(doc, p3, nl4()));
    assert(doc.subrange(p3 + 5, p3 + 6)[0] == doc[p3 + 5]);
    assert(doc[p3 + 5] == '}');
    lemma_ws_at(doc, p3, nl4());
    assert(sp_tab_after(doc, p3, f2) == Some((f2, p3 + 6)));
    assert(doc[p1 + 7] == '"') by {
        assert(doc.subrange(p1 + 7, p1 + 7 + quoted("name"@).len() as int)[0] == doc[p1 + 7]);
        assert(quoted("name"@)[0] == '"');
    }
    assert(sp_tab_obj(doc, i) == Some((t, p3 + 6)));
    assert(p3 + 6 == i + r.len());
}

proof fn lemma_render_tabs_items_len(tabs: Seq<TabModel>)
    ensures
        render_tabs_items(tabs).len() >= tabs.len(),
    decreases tabs.len(),
{
    if tabs.len() > 1 {
        lemma_render_tabs_items_len(tabs.drop_first());
    }
}

/// Parsing the rendered elements of a non-empty tab list, followed by the
/// closing indent and bracket, gives the list back.
proof fn lemma_tabs_items_at(doc: Seq<char>, i: int, tabs: Seq<TabModel>, fuel: nat)
    requires
        tabs.len() >= 1,
        matches_at(doc, i, render_tabs_items(tabs) + nl2() + seq![']']),
        forall|k: int|
            0 <= k < tabs.len() ==> text_ok(#[trigger] tabs[k].name) && text_ok(tabs[k].icon),
        fuel >= tabs.len(),
    ensures
        sp_tabs_items(doc, i, fuel) == Some(
            (tabs, i + render_tabs_items(tabs).len() + nl2().len() + 1),
        ),
    decreases tabs.len(),
{
    let t0 = tabs[0];
    if tabs.len() == 1 {
        assert(render_tabs_items(tabs) == nl4() + render_tab(t0));
        lemma_matches_split(doc, i, nl4() + render_tab(t0) + nl2(), seq![']']);
        lemma_matches_split(doc, i, nl4() + render_tab(t0), nl2());
        lemma_matches_split(doc, i, nl4(), render_tab(t0));
        let p1 = i + 5;
        let p2 = p1 + render_tab(t0).len();
        assert(doc.subrange(p1, p1 + render_tab(t0).len() as int)[0] == doc[p1]);
        assert(render_tab(t0)[0] == '{');
        lemma_ws_at(doc, i, nl4());
        lemma_tab_at(doc, p1, t0);
        assert(doc.subrange(p2 + 3, p2 + 4)[0] == doc[p2 + 3]);
        assert(doc[p2 + 3] == ']');
        lemma_ws_at(doc, p2, nl2());
        assert(seq![t0] =~= tabs);
        assert(sp_tabs_items(doc, i, fuel) == Some((tabs, p2 + 4)));
    } else {
        let rest = tabs.drop_first();
        assert(render_tabs_items(tabs) == nl4() + render_tab(t0) + seq![','] + render_tabs_items(
            rest,
        ));
        lemma_matches_split(
            doc,
            i,
            nl4() + render_tab(t0) + seq![','] + render_tabs_items(rest) + nl2(),
            seq![']'],
        );
        lemma_matches_split(
            doc,
            i,
            nl4() + render_tab(t0) + seq![','] + render_tabs_items(rest),
            nl2(),
        );
        lemma_matches_split(doc, i, nl4() + render_tab(t0) + seq![','], render_tabs_items(rest));
        lemma_matches_split(doc, i, nl4() + render_tab(t0), seq![',']);
        lemma_matches_split(doc, i, nl4(), render_tab(t0));
        let p1 = i + 5;
        let p2 = p1 + render_tab(t0).len();
        let p3 = p2 + 1;
        assert(doc.subrange(p1, p1 + render_tab(t0).len() as int)[0] == doc[p1]);
        assert(render_tab(t0)[0] == '{');
        lemma_ws_at(doc, i, nl4());
        lemma_tab_at(doc, p1, t0);
        assert(doc.subrange(p2, p2 + 1)[0] == doc[p2]);
        assert(doc[p2] == ',');
        lemma_ws_none(doc, p2);
        let a2 = nl4() + render_tab(t0) + seq![','];
        let b2 = render_tabs_items(rest) + nl2() + seq![']'];
        assert(render_tabs_items(tabs) + nl2() + seq![']'] =~= a2 + b2);
        lemma_matches_split(doc, i, a2, b2);
        assert(matches_at(doc, p3, b2));
        lemma_tabs_items_at(doc, p3, rest, (fuel - 1) as nat);
        assert(seq![t0] + rest =~= tabs);
        assert(sp_tabs_items(doc, i, fuel) == Some(
            (tabs, p3 + render_tabs_items(rest).len() + 3 + 1),
        ));
    }
}

/// Parsing the rendered tab array gives the list back.
pub proof fn lemma_tabs_at(doc: Seq<char>, i: int, tabs: Seq<TabModel>)
    requires
        matches_at(doc, i, render_tabs(tabs)),
        forall|k: int|
            0 <= k < tabs.len() ==> text_ok(#[trigger] tabs[k].name) && text_ok(tabs[k].icon),
    ensures
        sp_tabs_arr(doc, i) == Some((tabs, i + render_tabs(tabs).len())),
{
    if tabs.len() == 0 {
        assert(doc.subrange(i, i + 2)[0] == doc[i]);
        assert(doc.subrange(i, i + 2)[1] == doc[i + 1]);
        assert(doc[i] == '[' && doc[i + 1] == ']');
        lemma_ws_none(doc, i + 1);
        assert(sp_tabs_arr(doc, i) == Some((Seq::<TabModel>::empty(), i + 2)));
        assert(tabs =~= Seq::<TabModel>::empty());
    } else {
        lemma_matches_split(doc, i, seq!['['] + render_tabs_items(tabs) + nl2(), seq![']']);
        lemma_matches_split(doc, i, seq!['['] + render_tabs_items(tabs), nl2());
        lemma_matches_split(doc, i, seq!['['], render_tabs_items(tabs));
        assert(doc.subrange(i, i + 1)[0] == doc[i]);
        assert(doc[i] == '[');
        let p1 = i + 1;
        let b = render_tabs_items(tabs) + nl2() + seq![']'];
        assert(seq!['['] + render_tabs_items(tabs) + nl2() + seq![']'] =~= seq!['['] + b);
        lemma_matches_split(doc, i, seq!['['], b);
        assert(matches_at(doc, p1, b));
        lemma_render_tabs_items_len(tabs);
        assert(doc.len() >= tabs.len());
        lemma_tabs_items_at(doc, p1, tabs, doc.len());
        // the array parser skips the leading line break and sees '{', not ']'
        if tabs.len() == 1 {
            lemma_matches_split(doc, p1, nl4(), render_tab(tabs[0]));
        } else {
            lemma_matches_split(
                doc,
                p1,
                nl4() + render_tab(tabs[0]) + seq![','],
                render_tabs_items(tabs.drop_first()),
            );
            lemma_matches_split(doc, p1, nl4() + render_tab(tabs[0]), seq![',']);
            lemma_matches_split(doc, p1, nl4(), render_tab(tabs[0]));
        }
        let p2 = p1 + 5;
        assert(doc.subrange(p2, p2 + render_tab(tabs[0]).len() as int)[0] == doc[p2]);
        assert(render_tab(tabs[0])[0] == '{');
        assert(doc[p2] == '{');
        lemma_ws_at(doc, p1, nl4());
        assert(sp_ws(doc, p1) == p2 && doc[p2] != ']');
        assert(sp_tabs_arr(doc, i) == sp_tabs_items(doc, p1, doc.len()));
    }
}

/// Parsing the rendered settings object gives the snapshot back.
#[verifier::rlimit(100)]
proof fn lemma_settings_obj_at(doc: Seq<char>, i: int, m: SettingsModel)
    requires
        m.wf(),
        renderable(m),
        matches_at(doc, i, render_settings_model(m)),
    ensures
        sp_settings_obj(doc, i) == Some((m, i + render_settings_model(m).len())),
        doc[i] == '{',
{
    reveal_strlit("theme");
    reveal_strlit("download_path");
    reveal_strlit("current_tab");
    reveal_strlit("notification_settings");
    reveal_strlit("tabs");
    assert(text_ok("theme"@));
    assert(text_ok("download_path"@));
    assert(text_ok("current_tab"@));
    assert(text_ok("notification_settings"@));
    assert(text_ok("tabs"@));
    let m1 = top_member("theme"@, quoted(m.theme));
    let m2 = top_member("download_path"@, quoted(m.download_path));
    let m3 = top_member("current_tab"@, render_int(m.current_tab));
    let m4 = top_member("notification_settings"@, render_notif(m.notification_settings));
    let m5 = top_member("tabs"@, render_tabs(m.tabs));
    lemma_matches_split(
        doc,
        i,
        seq!['{'] + m1 + seq![','] + m2 + seq![','] + m3 + seq![','] + m4 + seq![','] + m5,
        seq!['\n', '}'],
    );
    lemma_matches_split(
        doc,
        i,
        seq!['{'] + m1 + seq![','] + m2 + seq![','] + m3 + seq![','] + m4 + seq![','],
        m5,
    );
    lemma_matches_split(doc, i, seq!['{'] + m1 + seq![','] + m2 + seq![','] + m3 + seq![','] + m4, seq![',']);
    lemma_matches_split(doc, i, seq!['{'] + m1 + seq![','] + m2 + seq![','] + m3 + seq![','], m4);
    lemma_matches_split(doc, i, seq!['{'] + m1 + seq![','] + m2 + seq![','] + m3, seq![',']);
    lemma_matches_split(doc, i, seq!['{'] + m1 + seq![','] + m2 + seq![','], m3);
    lemma_matches_split(doc, i, seq!['{'] + m1 + seq![','] + m2, seq![',']);
    lemma_matches_split(doc, i, seq!['{'] + m1 + seq![','], m2);
    lemma_matches_split(doc, i, seq!['{'] + m1, seq![',']);
    lemma_matches_split(doc, i, seq!['{'], m1);
    assert(doc.subrange(i, i + 1)[0] == doc[i]);
    assert(doc[i] == '{');
    let p1: int = i + 1;
    let p2 = p1 + m1.len();
    let p3 = p2 + 1 + m2.len();
    let p4 = p3 + 1 + m3.len();
    let p5 = p4 + 1 + m4.len();
    let p6 = p5 + 1 + m5.len();
    assert(doc.subrange(p2, p2 + 1)[0] == doc[p2]);
    assert(doc[p2] == ',');
    assert(doc.subrange(p3, p3 + 1)[0] == doc[p3]);
    assert(doc[p3] == ',');
    assert(doc.subrange(p4, p4 + 1)[0] == doc[p4]);
    assert(doc[p4] == ',');
    assert(doc.subrange(p5, p5 + 1)[0] == doc[p5]);
    assert(doc[p5] == ',');
    // member 1: theme
    assert(quoted(m.theme)[0] == '"' && quoted(m.theme).len() >= 2);
    lemma_member_prefix(doc, p1, nl2(), "theme"@, quoted(m.theme));
    let v1 = p1 + 3 + quoted("theme"@).len() + 2;
    lemma_string_at(doc, v1, m.theme);
    // member 2: download_path
    assert(quoted(m.download_path)[0] == '"' && quoted(m.download_path).len() >= 2);
    lemma_member_prefix(doc, p2 + 1, nl2(), "download_path"@, quoted(m.download_path));
    let v2 = p2 + 1 + 3 + quoted("download_path"@).len() + 2;
    lemma_string_at(doc, v2, m.download_path);
    // member 3: current_tab
    assert(render_int(m.current_tab).len() >= 1 && !is_ws(render_int(m.current_tab)[0])) by {
        if m.current_tab < 0 {
            lemma_uint_chars(-m.current_tab);
            assert(render_int(m.current_tab)[0] == '-');
        } else {
            lemma_uint_chars(m.current_tab);
            assert(is_digit(uint_chars(m.current_tab)[0]));
        }
    }
    lemma_member_prefix(doc, p3 + 1, nl2(), "current_tab"@, render_int(m.current_tab));
    let v3 = p3 + 1 + 3 + quoted("current_tab"@).len() + 2;
    assert(doc[v3 + render_int(m.current_tab).len()] == ',');
    assert(!is_digit(doc[v3 + render_int(m.current_tab).len()]));
    lemma_int_at(doc, v3, m.current_tab);
    // member 4: notification settings
    assert(render_notif(m.notification_settings)[0] == '{');
    assert(!is_ws(render_notif(m.notification_settings)[0]));
    lemma_member_prefix(
        doc,
        p4 + 1,
        nl2(),
        "notification_settings"@,
        render_notif(m.notification_settings),
    );
    let v4 = p4 + 1 + 3 + quoted("notification_settings"@).len() + 2;
    lemma_notif_at(doc, v4, m.notification_settings);
    // member 5: tabs
    assert(render_tabs(m.tabs)[0] == '[');
    assert(!is_ws(render_tabs(m.tabs)[0]));
    lemma_member_prefix(doc, p5 + 1, nl2(), "tabs"@, render_tabs(m.tabs));
    let v5 = p5 + 1 + 3 + quoted("tabs"@).len() + 2;
    lemma_tabs_at(doc, v5, m.tabs);
    // chain the member parser through the five members
    let f0 = fields_acc_empty();
    let f1 = FieldsAcc { theme: Some(m.theme), ..f0 };
    let f2 = FieldsAcc { download_path: Some(m.download_path), ..f1 };
    let f3 = FieldsAcc { current_tab: Some(m.current_tab), ..f2 };
    let f4 = FieldsAcc { notification_settings: Some(m.notification_settings), ..f3 };
    let f5 = FieldsAcc { tabs: Some(m.tabs), ..f4 };
    assert(sp_members(doc, p1, f0) == sp_after(doc, p2, f1));
    lemma_ws_none(doc, p2);
    assert(sp_after(doc, p2, f1) == sp_members(doc, p2 + 1, f1));
    assert(sp_members(doc, p2 + 1, f1) == sp_after(doc, p3, f2));
    lemma_ws_none(doc, p3);
    assert(sp_after(doc, p3, f2) == sp_members(doc, p3 + 1, f2));
    assert(sp_members(doc, p3 + 1, f2) == sp_after(doc, p4, f3));
    lemma_ws_none(doc, p4);
    assert(sp_after(doc, p4, f3) == sp_members(doc, p4 + 1, f3));
    assert(sp_members(doc, p4 + 1, f3) == sp_after(doc, p5, f4));
    lemma_ws_none(doc, p5);
    assert(sp_after(doc, p5, f4) == sp_members(doc, p5 + 1, f4));
    assert(sp_members(doc, p5 + 1, f4) == sp_after(doc, p6, f5));
    // the closing "\n}" of the object
    assert(matches_at(doc, p6, seq!['\n', '}']));
    assert(doc.subrange(p6, p6 + 2)[0] == doc[p6]);
    assert(doc.subrange(p6, p6 + 2)[1] == doc[p6 + 1]);
    assert(doc[p6] == '\n' && doc[p6 + 1] == '}');
    assert(sp_ws(doc, p6) == sp_ws(doc, p6 + 1));
    lemma_ws_none(doc, p6 + 1);
    assert(sp_after(doc, p6, f5) == Some((f5, p6 + 2)));
    assert(fields_finish(f5) == m);
    // the object is entered through its first member, not the empty branch
    assert(doc[p1 + 3] == '"') by {
        assert(doc.subrange(p1 + 3, p1 + 3 + quoted("theme"@).len() as int)[0] == doc[p1 + 3]);
        assert(quoted("theme"@)[0] == '"');
    }
    assert(sp_settings_obj(doc, i) == Some((m, p6 + 2)));
    assert(p6 + 2 == i + render_settings_model(m).len());
}

/// Parsing the whole rendered document gives the snapshot back: the
/// round-trip law of save and load, for every snapshot whose strings the
/// format can persist.
pub proof fn lemma_settings_round_trip(m: SettingsModel)
    requires
        m.wf(),
        renderable(m),
    ensures
        sp_settings_doc(render_settings_model(m)) == Some(m),
{
    let doc = render_settings_model(m);
    assert(matches_at(doc, 0, doc)) by {
        assert(doc.subrange(0, doc.len() as int) =~= doc);
    }
    lemma_settings_obj_at(doc, 0, m);
    lemma_ws_none(doc, 0);
    lemma_ws_none(doc, doc.len() as int);
    assert(sp_settings_doc(doc) == Some(m));
}

} // verus!
