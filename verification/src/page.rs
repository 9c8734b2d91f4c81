//! What the editor does to the open page: layering, removing, copying and
//! pasting objects, and the keys that ask for it.
use vstd::prelude::*;

use crate::data::{F32Bits, Object, Page};
use crate::state::EditorState;

verus! {

/// `s` with `x` put after its last run of objects whose layer is above
/// `x`'s: scanning from the end, `x` goes right after the last object whose
/// layer is not above its own.
pub open spec fn insert_by_z(s: Seq<Object>, x: Object) -> Seq<Object>
    decreases s.len(),
{
    if s.len() == 0 || s.last().z_index <= x.z_index {
        s.push(x)
    } else {
        insert_by_z(s.drop_last(), x).push(s.last())
    }
}

/// The objects of `s` ordered by layer, those of one layer keeping their order.
pub open spec fn sorted_by_z(s: Seq<Object>) -> Seq<Object>
    decreases s.len(),
{
    if s.len() == 0 {
        s
    } else {
        insert_by_z(sorted_by_z(s.drop_last()), s.last())
    }
}

/// Every object is on a layer no higher than the objects after it.
pub open spec fn is_layered(s: Seq<Object>) -> bool {
    forall|i: int, j: int| 0 <= i <= j < s.len() ==> s[i].z_index <= s[j].z_index
}

/// The objects of `s` on layer `k`, in order.
pub open spec fn layer(s: Seq<Object>, k: u32) -> Seq<Object>
    decreases s.len(),
{
    if s.len() == 0 {
        s
    } else if s.last().z_index == k {
        layer(s.drop_last(), k).push(s.last())
    } else {
        layer(s.drop_last(), k)
    }
}

proof fn lemma_insert_by_z_at(s: Seq<Object>, x: Object, j: int)
    requires
        0 <= j <= s.len(),
        j == 0 || s[j - 1].z_index <= x.z_index,
        forall|k: int| j <= k < s.len() ==> #[trigger] s[k].z_index > x.z_index,
    ensures
        insert_by_z(s, x) == s.insert(j, x),
    decreases s.len(),
{
    if s.len() == 0 || s.last().z_index <= x.z_index {
        if j < s.len() {
            assert(s[s.len() - 1].z_index > x.z_index);
        }
        assert(s.push(x) =~= s.insert(j, x));
    } else {
        lemma_insert_by_z_at(s.drop_last(), x, j);
        assert(s.drop_last().insert(j, x).push(s.last()) =~= s.insert(j, x));
    }
}

/// Orders the objects of the page by layer, so that higher layers are drawn
/// later; objects of one layer keep their order.
pub fn sort_by_z(crt_page: &mut Page)
    ensures
        final(crt_page).objects@ == sorted_by_z(old(crt_page).objects@),
{
    let ghost orig = crt_page.objects@;
    let total = crt_page.objects.len();
    let mut rest: Vec<Object> = Vec::new();
    std::mem::swap(&mut rest, &mut crt_page.objects);
    let mut out: Vec<Object> = Vec::new();
    let mut k: usize = 0;
    assert(orig.subrange(0, 0) =~= Seq::<Object>::empty());
    assert(orig.subrange(0, orig.len() as int) =~= orig);
    while rest.len() > 0
        invariant
            k <= orig.len(),
            orig.len() == total,
            rest@ == orig.subrange(k as int, orig.len() as int),
            out@ == sorted_by_z(orig.subrange(0, k as int)),
        decreases rest@.len(),
    {
        assert(rest@.len() == orig.len() - k);
        let x = rest.remove(0);
        let mut j = out.len();
        while j > 0 && out[j - 1].z_index > x.z_index
            invariant
                j <= out@.len(),
                forall|m: int| j <= m < out@.len() ==> #[trigger] out@[m].z_index > x.z_index,
                k < orig.len(),
                orig.len() == total,
                x == orig[k as int],
                rest@ == orig.subrange(k + 1, orig.len() as int),
                out@ == sorted_by_z(orig.subrange(0, k as int)),
            decreases j,
        {
            j = j - 1;
        }
        proof {
            lemma_insert_by_z_at(out@, x, j as int);
            let t = orig.subrange(0, k + 1);
            assert(t.drop_last() =~= orig.subrange(0, k as int));
            assert(t.last() == x);
        }
        out.insert(j, x);
        k = k + 1;
        assert(rest@ =~= orig.subrange(k as int, orig.len() as int));
    }
    crt_page.objects = out;
}


proof fn lemma_insert_by_z_bound(s: Seq<Object>, x: Object, b: u32)
    requires
        forall|i: int| 0 <= i < s.len() ==> #[trigger] s[i].z_index <= b,
        x.z_index <= b,
    ensures
        forall|i: int| 0 <= i < insert_by_z(s, x).len() ==> #[trigger] insert_by_z(s, x)[i].z_index <= b,
        insert_by_z(s, x).len() == s.len() + 1,
    decreases s.len(),
{
    if s.len() == 0 || s.last().z_index <= x.z_index {
    } else {
        lemma_insert_by_z_bound(s.drop_last(), x, b);
    }
}

proof fn lemma_insert_by_z_layered(s: Seq<Object>, x: Object)
    requires
        is_layered(s),
    ensures
        is_layered(insert_by_z(s, x)),
    decreases s.len(),
{
    if s.len() == 0 || s.last().z_index <= x.z_index {
    } else {
        let t = s.drop_last();
        lemma_insert_by_z_layered(t, x);
        lemma_insert_by_z_bound(t, x, s.last().z_index);
    }
}

/// Ordering by layer puts every object on a layer no higher than the objects after it.
pub proof fn lemma_sorted_is_layered(s: Seq<Object>)
    ensures
        is_layered(sorted_by_z(s)),
    decreases s.len(),
{
    if s.len() > 0 {
        lemma_sorted_is_layered(s.drop_last());
        lemma_insert_by_z_layered(sorted_by_z(s.drop_last()), s.last());
    }
}

proof fn lemma_layer_of_insert(s: Seq<Object>, x: Object, k: u32)
    ensures
        layer(insert_by_z(s, x), k) == if x.z_index == k {
            layer(s, k).push(x)
        } else {
            layer(s, k)
        },
    decreases s.len(),
{
    if s.len() == 0 || s.last().z_index <= x.z_index {
        assert(s.push(x).drop_last() =~= s);
    } else {
        let t = s.drop_last();
        lemma_layer_of_insert(t, x, k);
        assert(insert_by_z(t, x).push(s.last()).drop_last() =~= insert_by_z(t, x));
    }
}

/// Ordering by layer keeps, on every layer, the same objects in the same order.
pub proof fn lemma_sorted_keeps_layers(s: Seq<Object>, k: u32)
    ensures
        layer(sorted_by_z(s), k) == layer(s, k),
    decreases s.len(),
{
    if s.len() > 0 {
        lemma_sorted_keeps_layers(s.drop_last(), k);
        lemma_layer_of_insert(sorted_by_z(s.drop_last()), s.last(), k);
    }
}

/// Ordering objects that are already in layer order changes nothing.
pub proof fn lemma_sorted_fixes_layered(s: Seq<Object>)
    requires
        is_layered(s),
    ensures
        sorted_by_z(s) == s,
    decreases s.len(),
{
    if s.len() > 0 {
        let t = s.drop_last();
        assert(is_layered(t));
        lemma_sorted_fixes_layered(t);
        assert(t.push(s.last()) =~= s);
    }
}

/// Ordering by layer twice is the same as once.
pub proof fn lemma_sort_idempotent(s: Seq<Object>)
    ensures
        sorted_by_z(sorted_by_z(s)) == sorted_by_z(s),
{
    lemma_sorted_is_layered(s);
    lemma_sorted_fixes_layered(sorted_by_z(s));
}


/// Removes the object whose removal was asked for, if any, and clears the request.
pub fn remove_obj_if_need(crt_page: &mut Page, id_to_remove: &mut Option<usize>)
    requires
        *old(id_to_remove) is Some ==> old(id_to_remove)->0 < old(crt_page).objects@.len(),
    ensures
        *final(id_to_remove) is None,
        final(crt_page).objects@ == match *old(id_to_remove) {
            Some(i) => old(crt_page).objects@.remove(i as int),
            None => old(crt_page).objects@,
        },
{
    if let Some(id) = *id_to_remove {
        crt_page.objects.remove(id);
        *id_to_remove = None;
    }
}

/// Whether a key acts on the selected object: it is pressed, an object is
/// selected and its text is not being edited.
pub open spec fn acts_on_selection(pressed: bool, e: EditorState) -> bool {
    pressed && !e.is_selected_for_text_edit && e.selected_object_id is Some
}

/// The copied object after the copy key: the selected object when the key
/// acts on it and it exists, else what was copied before.
pub open spec fn copied_after(copy: bool, e: EditorState, objs: Seq<Object>) -> Option<Object> {
    if acts_on_selection(copy, e) && e.selected_object_id->0 < objs.len() {
        Some(objs[e.selected_object_id->0 as int])
    } else {
        e.copied_object
    }
}

/// The objects after the paste key: a copy of the copied object put at the
/// mouse, on top, when the key is pressed outside text editing and something
/// is copied.
pub open spec fn pasted(
    paste: bool,
    editing: bool,
    copied: Option<Object>,
    objs: Seq<Object>,
    mouse_pos: (F32Bits, F32Bits),
) -> Seq<Object> {
    if paste && !editing && copied is Some {
        objs.push(Object { pos: mouse_pos, ..copied->0 })
    } else {
        objs
    }
}

/// What the copy and paste keys make of the editor state `e` and the objects `objs`.
pub open spec fn copy_paste_step(
    copy: bool,
    paste: bool,
    e: EditorState,
    objs: Seq<Object>,
    mouse_pos: (F32Bits, F32Bits),
) -> (EditorState, Seq<Object>) {
    let copied = copied_after(copy, e, objs);
    (
        EditorState { copied_object: copied, ..e },
        pasted(paste, e.is_selected_for_text_edit, copied, objs, mouse_pos),
    )
}

/// What the delete key makes of the editor state `e` and the objects `objs`.
pub open spec fn delete_step(delete: bool, e: EditorState, objs: Seq<Object>) -> (
    EditorState,
    Seq<Object>,
) {
    (
        e,
        if acts_on_selection(delete, e) {
            objs.remove(e.selected_object_id->0 as int)
        } else {
            objs
        },
    )
}

/// What the escape key makes of the editor state `e`.
pub open spec fn close_step(close: bool, e: EditorState) -> EditorState {
    EditorState { page_to_close: e.page_to_close || close, ..e }
}

/// Copy and paste: the copy key copies the selected object, then the paste
/// key puts a copy of the copied object at the mouse, as the last object.
/// Neither acts while a text is being edited.
pub fn copy_paste_process(
    copy: bool,
    paste: bool,
    state: &mut EditorState,
    crt_page: &mut Page,
    mouse_pos: (F32Bits, F32Bits),
)
    ensures
        *final(state) == (EditorState {
            copied_object: copied_after(copy, *old(state), old(crt_page).objects@),
            ..*old(state)
        }),
        final(crt_page).objects@ == pasted(
            paste,
            old(state).is_selected_for_text_edit,
            copied_after(copy, *old(state), old(crt_page).objects@),
            old(crt_page).objects@,
            mouse_pos,
        ),
        (*final(state), final(crt_page).objects@) == copy_paste_step(
            copy,
            paste,
            *old(state),
            old(crt_page).objects@,
            mouse_pos,
        ),
        old(state).is_selected_for_text_edit ==> final(crt_page).objects@ == old(crt_page).objects@
            && *final(state) == *old(state),
        !old(state).is_selected_for_text_edit && paste && old(state).copied_object is Some && !copy
            ==> final(crt_page).objects@ == old(crt_page).objects@.push(
            Object { pos: mouse_pos, ..old(state).copied_object->0 },
        ),
        !paste ==> final(crt_page).objects@ == old(crt_page).objects@,
{
    if copy && !state.is_selected_for_text_edit {
        if let Some(index) = state.selected_object_id {
            if index < crt_page.objects.len() {
                state.copied_object = Some(crt_page.objects[index].clone());
            }
        }
    }
    if paste && !state.is_selected_for_text_edit {
        if let Some(item) = &state.copied_object {
            let mut object = item.clone();
            object.pos = mouse_pos;
            crt_page.objects.push(object);
        }
    }
}

/// The delete key removes the selected object, unless its text is being edited.
pub fn delete_process(delete: bool, state: &mut EditorState, crt_page: &mut Page)
    requires
        acts_on_selection(delete, *old(state)) ==> old(state).selected_object_id->0 < old(
            crt_page,
        ).objects@.len(),
    ensures
        *final(state) == *old(state),
        final(crt_page).objects@ == if acts_on_selection(delete, *old(state)) {
            old(crt_page).objects@.remove(old(state).selected_object_id->0 as int)
        } else {
            old(crt_page).objects@
        },
        (*final(state), final(crt_page).objects@) == delete_step(
            delete,
            *old(state),
            old(crt_page).objects@,
        ),
{
    if delete && !state.is_selected_for_text_edit {
        if let Some(index) = state.selected_object_id {
            crt_page.objects.remove(index);
        }
    }
}

/// The escape key asks for the page to be closed.
pub fn close_process(close: bool, state: &mut EditorState)
    ensures
        *final(state) == (EditorState {
            page_to_close: old(state).page_to_close || close,
            ..*old(state)
        }),
        *final(state) == close_step(close, *old(state)),
{
    if close {
        state.page_to_close = true;
    }
}

/// The editing keys of one frame, in order: copy and paste (the paste at
/// `mouse_pos`), delete, then escape; its effect is that of
/// [`copy_paste_process`], then [`delete_process`], then [`close_process`].
pub fn hotkey_process(
    copy: bool,
    paste: bool,
    delete: bool,
    escape: bool,
    mouse_pos: (F32Bits, F32Bits),
    state: &mut EditorState,
    crt_page: &mut Page,
)
    requires
        acts_on_selection(delete, *old(state)) ==> old(state).selected_object_id->0 < pasted(
            paste,
            old(state).is_selected_for_text_edit,
            copied_after(copy, *old(state), old(crt_page).objects@),
            old(crt_page).objects@,
            mouse_pos,
        ).len(),
    ensures
        ({
            let copied = copied_after(copy, *old(state), old(crt_page).objects@);
            let objs = pasted(
                paste,
                old(state).is_selected_for_text_edit,
                copied,
                old(crt_page).objects@,
                mouse_pos,
            );
            &&& *final(state) == (EditorState {
                copied_object: copied,
                page_to_close: old(state).page_to_close || escape,
                ..*old(state)
            })
            &&& final(crt_page).objects@ == if acts_on_selection(delete, *old(state)) {
                objs.remove(old(state).selected_object_id->0 as int)
            } else {
                objs
            }
        }),
        ({
            let after_copy_paste = copy_paste_step(
                copy,
                paste,
                *old(state),
                old(crt_page).objects@,
                mouse_pos,
            );
            let after_delete = delete_step(delete, after_copy_paste.0, after_copy_paste.1);
            &&& *final(state) == close_step(escape, after_delete.0)
            &&& final(crt_page).objects@ == after_delete.1
        }),
        old(state).is_selected_for_text_edit ==> final(crt_page).objects@ == old(crt_page).objects@
            && *final(state) == (EditorState {
            page_to_close: old(state).page_to_close || escape,
            ..*old(state)
        }),
{
    copy_paste_process(copy, paste, state, crt_page, mouse_pos);
    delete_process(delete, state, crt_page);
    close_process(escape, state);
}

/// Whether the delete key of a frame in which the keys `copy`, `paste` and
/// `delete` are pressed finds the selected object, after copy and paste have
/// acted: what [`hotkey_process`] needs.
pub fn delete_index_in_range(
    copy: bool,
    paste: bool,
    delete: bool,
    state: &EditorState,
    crt_page: &Page,
) -> (ok: bool)
    ensures
        ok == (acts_on_selection(delete, *state) ==> state.selected_object_id->0 < pasted(
            paste,
            state.is_selected_for_text_edit,
            copied_after(copy, *state, crt_page.objects@),
            crt_page.objects@,
            (0, 0),
        ).len()),
{
    if !delete || state.is_selected_for_text_edit {
        return true;
    }
    match state.selected_object_id {
        None => true,
        Some(index) => {
            let n = crt_page.objects.len();
            let copies_now = copy && index < n;
            let pastes = paste && (state.copied_object.is_some() || copies_now);
            if pastes {
                index <= n
            } else {
                index < n
            }
        },
    }
}

/// Copying the selected object and then pasting puts a copy of it at the
/// mouse, on top of all the others; the objects already there stay as they were.
pub proof fn lemma_copy_then_paste(e: EditorState, objs: Seq<Object>, mouse_pos: (F32Bits, F32Bits))
    requires
        acts_on_selection(true, e),
        e.selected_object_id->0 < objs.len(),
    ensures
        ({
            let after_copy = EditorState { copied_object: copied_after(true, e, objs), ..e };
            pasted(
                true,
                after_copy.is_selected_for_text_edit,
                copied_after(false, after_copy, objs),
                objs,
                mouse_pos,
            ) == objs.push(Object { pos: mouse_pos, ..objs[e.selected_object_id->0 as int] })
        }),
{
}


/// While a text is being edited, none of the copy, paste and delete keys
/// changes the objects or the editor state.
pub proof fn lemma_keys_idle_while_editing(
    copy: bool,
    paste: bool,
    delete: bool,
    e: EditorState,
    objs: Seq<Object>,
    mouse_pos: (F32Bits, F32Bits),
)
    requires
        e.is_selected_for_text_edit,
    ensures
        forall|copied: Option<Object>| pasted(paste, true, copied, objs, mouse_pos) == objs,
        copy_paste_step(copy, paste, e, objs, mouse_pos) == (e, objs),
        delete_step(delete, e, objs) == (e, objs),
{
    assert(EditorState { copied_object: e.copied_object, ..e } == e);
}

} // verus!
