//! The models that the contracts speak of hold what the values hold: no text is
//! changed, no element is left out, and no variant stands for another.

use vstd::prelude::*;

use crate::connection::{LineStep, LineStepModel};
use crate::host::{
    are_plans, is_plan_at, menu_entries, opt_texts, ActivateRequest, ClickModel, EntryModel,
    MenuNotice, TrayEntry,
};
use crate::icon::{
    conversion, encoded, has_whole_icon, icon_plan, IconPlan, PlanModel, PngFault, PngFaultModel,
};
use crate::item::{pixmap_models, IconPixmap, StatusNotifierItem};
use crate::listing::row_models;
use crate::menu::{flat_models, FlatMenuItem, TrayMenu};
use crate::paths::{opt_bytes, path_result};
use crate::pick::{ActionModel, PickAction};
use crate::socket::{
    reply_result, ReplyStep, ReplyStepModel, Request, RequestModel, ServerStep, StepModel,
};
use crate::text::{opt_text, or_empty, texts};

verus! {

/// Texts, optional texts and optional bytes.
pub proof fn texts_are_what_they_hold(
    v: Seq<String>,
    o: Seq<Option<String>>,
    s: String,
    b: Vec<u8>,
    t: Seq<char>,
)
    ensures
        texts(v).len() == v.len(),
        forall|i: int| 0 <= i < v.len() ==> #[trigger] texts(v)[i] == v[i]@,
        opt_texts(o).len() == o.len(),
        forall|i: int| 0 <= i < o.len() ==> #[trigger] opt_texts(o)[i] == opt_text(o[i]),
        opt_text(Some(s)) == Some(s@),
        opt_text(None) is None,
        or_empty(Some(t)) == t,
        or_empty(None).len() == 0,
        opt_bytes(Some(b)) == Some(b@),
        opt_bytes(None) is None,
{
}

/// Results of reading, converting and looking for a path.
pub proof fn results_are_what_they_hold(s: String, e: String, b: Vec<u8>, f: PngFault)
    ensures
        reply_result(Ok(s)) == Ok::<Seq<char>, Seq<char>>(s@),
        reply_result(Err(e)) == Err::<Seq<char>, Seq<char>>(e@),
        path_result(Ok(b)) == Ok::<Seq<u8>, Seq<char>>(b@),
        path_result(Err(e)) == Err::<Seq<u8>, Seq<char>>(e@),
        conversion(Ok(b)) == Ok::<Seq<u8>, Seq<char>>(b@),
        conversion(Err(e)) == Err::<Seq<u8>, Seq<char>>(e@),
        encoded(Ok(b)) == Ok::<Seq<u8>, PngFaultModel>(b@),
        encoded(Err(f)) == Err::<Seq<u8>, PngFaultModel>(f@),
        PngFault::Header(e)@ == PngFaultModel::Header(e@),
        PngFault::Write(e)@ == PngFaultModel::Write(e@),
        PngFault::Finish(e)@ == PngFaultModel::Finish(e@),
{
}

/// Tray items and their pixmaps.
pub proof fn items_are_what_they_hold(item: StatusNotifierItem, v: Seq<IconPixmap>)
    ensures
        item@.id == item.id@,
        item.title is Some ==> item@.title == Some(item.title->0@),
        item.title is None ==> item@.title is None,
        item.icon_name is Some ==> item@.icon_name == Some(item.icon_name->0@),
        item.icon_name is None ==> item@.icon_name is None,
        item.tool_tip is Some ==> item@.tip_title == Some(item.tool_tip->0.title@),
        item.tool_tip is None ==> item@.tip_title is None,
        item.menu is Some ==> item@.menu == Some(item.menu->0@),
        item.menu is None ==> item@.menu is None,
        item.icon_pixmap is Some ==> item@.pixmaps == Some(pixmap_models(item.icon_pixmap->0@)),
        item.icon_pixmap is None ==> item@.pixmaps is None,
        pixmap_models(v).len() == v.len(),
        forall|i: int|
            0 <= i < v.len() ==> (#[trigger] pixmap_models(v)[i]).width == v[i].width
                && pixmap_models(v)[i].height == v[i].height && pixmap_models(v)[i].pixels
                == v[i].pixels@,
{
}

/// Registered items and their menus.
pub proof fn entries_are_what_they_hold(entry: TrayEntry, menu: TrayMenu)
    ensures
        entry@.address == entry.address@,
        entry@.item == entry.item@,
        entry@.menu == menu_entries(entry.menu),
        menu_entries(Some(menu)) == Some(menu.submenus@),
        menu_entries(None) is None,
{
}

/// Rows of the list and entries of a flattened menu.
pub proof fn rows_are_what_they_hold(
    rows: Seq<(String, String, Option<String>)>,
    menu: Seq<FlatMenuItem>,
)
    ensures
        row_models(rows).len() == rows.len(),
        forall|i: int|
            0 <= i < rows.len() ==> (#[trigger] row_models(rows)[i]).title == rows[i].0@
                && row_models(rows)[i].address == rows[i].1@ && row_models(rows)[i].icon
                == opt_text(rows[i].2),
        flat_models(menu).len() == menu.len(),
        forall|i: int|
            0 <= i < menu.len() ==> (#[trigger] flat_models(menu)[i]).id == menu[i].id
                && flat_models(menu)[i].label == menu[i].label@ && flat_models(menu)[i].enabled
                == menu[i].enabled && flat_models(menu)[i].menu_type == menu[i].menu_type@,
{
}

/// Plans for icons.
pub proof fn plans_are_what_they_hold(
    plans: Seq<(String, IconPlan)>,
    entries: Seq<EntryModel>,
    cache: Option<Seq<u8>>,
    png: Vec<u8>,
    path: Vec<u8>,
    error: String,
    name: Option<String>,
)
    ensures
        IconPlan::Keep(name)@ == PlanModel::Keep(opt_text(name)),
        (IconPlan::Refused { error, fallback: name })@ == (PlanModel::Refused {
            error: error@,
            fallback: opt_text(name),
        }),
        (IconPlan::Store { png, path, fallback: name })@ == (PlanModel::Store {
            png: png@,
            path: path@,
            fallback: opt_text(name),
        }),
        are_plans(plans, entries, cache) <==> {
            &&& plans.len() == entries.len()
            &&& forall|i: int|
                0 <= i < plans.len() ==> (#[trigger] plans[i]).0@ == entries[i].address
                    && plans[i].1@ == icon_plan(entries[i].item, cache) && (plans[i].1 is Store
                    <==> has_whole_icon(entries[i].item))
        },
{
}

/// The plan for the icon at an address.
pub proof fn a_plan_is_for_the_item_at_the_address(
    plan: Option<IconPlan>,
    entries: Seq<EntryModel>,
    k: int,
    address: Seq<char>,
    cache: Option<Seq<u8>>,
)
    requires
        crate::host::distinct(entries),
        0 <= k < entries.len(),
        forall|i: int| 0 <= i < entries.len() ==> entries[i].address != address,
    ensures
        is_plan_at(plan, entries, entries[k].address, cache) ==> plan is Some && plan->0@
            == icon_plan(entries[k].item, cache) && (plan->0 is Store <==> has_whole_icon(
            entries[k].item,
        )),
        is_plan_at(plan, entries, address, cache) <==> plan is None,
{
    crate::host::entries_have_their_own_address(entries, k);
    crate::laws::lists::lemma_no_entry(entries, address);
}

/// Clicks and notices.
pub proof fn clicks_are_what_they_hold(
    address: String,
    menu_path: String,
    submenu_id: i32,
    x: i32,
    y: i32,
    notice: MenuNotice,
)
    ensures
        (ActivateRequest::MenuItem { address, menu_path, submenu_id })@ == (ClickModel::MenuItem {
            address: address@,
            menu_path: menu_path@,
            submenu_id,
        }),
        (ActivateRequest::Default { address, x, y })@ == (ClickModel::Default {
            address: address@,
            x,
            y,
        }),
        notice@.address == notice.address@,
        notice@.menu_path == notice.menu_path@,
        notice@.id == notice.id,
{
}

/// Requests, and what the daemon and the client do.
pub proof fn steps_are_what_they_hold(
    s: String,
    id: i32,
    notice: MenuNotice,
    click: ActivateRequest,
    step: ServerStep,
)
    ensures
        Request::List@ == RequestModel::List,
        Request::Menu(s)@ == RequestModel::Menu(s@),
        Request::Activate(s, id)@ == RequestModel::Activate(s@, id as int),
        Request::ActivateDefault(s)@ == RequestModel::ActivateDefault(s@),
        Request::Ping@ == RequestModel::Ping,
        Request::Refused(s)@ == RequestModel::Refused(s@),
        ServerStep::Reply(s)@ == StepModel::Reply(s@),
        ServerStep::List@ == StepModel::List,
        (ServerStep::Activate { notice: Some(notice), click })@ == (StepModel::Activate {
            notice: Some(notice@),
            click: click@,
        }),
        (ServerStep::Activate { notice: None, click })@ == (StepModel::Activate {
            notice: None,
            click: click@,
        }),
        LineStep::Close@ == LineStepModel::Close,
        LineStep::Skip@ == LineStepModel::Skip,
        LineStep::Serve(step)@ == LineStepModel::Serve(step@),
        ReplyStep::More@ == ReplyStepModel::More,
        ReplyStep::Done@ == ReplyStepModel::Done,
        ReplyStep::Failed(s)@ == ReplyStepModel::Failed(s@),
        PickAction::Send(s)@ == ActionModel::Send(s@),
        PickAction::Choose(s)@ == ActionModel::Choose(s@),
        PickAction::Done@ == ActionModel::Done,
        PickAction::NoItems@ == ActionModel::NoItems,
        PickAction::Fail(s)@ == ActionModel::Fail(s@),
{
}

} // verus!
