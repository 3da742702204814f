//! Addresses relative to the game module's base, and structure offsets, of the supported build.

use vstd::prelude::*;

verus! {

// ---------------- data globals (module base + RVA) ----------------
pub const GUOBJECTARRAY: u64 = 0x0d0b_1770; // global object array
pub const FNAMEPOOL: u64 = 0x0d40_ed80; // name pool
pub const GAVERAGEFPS: u64 = 0x0d55_0f94; // UE's GAverageFPS global (the `%5.2f FPS` value)

// ---------------- native functions (module base + RVA) ----------------
pub const PROCESSEVENT_SLOT: u64 = 79; // UObject::ProcessEvent vtable slot (index, patch-proof)
pub const GETFOVANGLE_SLOT: u64 = 252; // camera manager vtable slot (byte 0x7E0): GetFOVAngle

pub const SET_CAMERA_PERSPECTIVE: u64 = 0x07b1_6da0; // void(pawn, u8 persp, i32* ctx)
pub const REP_UPDATER: u64 = 0x07b1_6de0; // void(pawn, i32 ctx0, i32 ctx1)
pub const GET_REP_BY_INDEX: u64 = 0x07b1_6d30; // *rep(pawn, i32 idx) - TMap lookup
pub const SET_ACTIVE_REP: u64 = 0x07b1_5b90; // void(pawn, i32 idx) - death-path activator

// Dear ImGui native entry points.
pub const IMGUI_BEGIN: u64 = 0x072c_1530;
pub const IMGUI_END: u64 = 0x072c_52d0;
pub const IMGUI_TEXT: u64 = 0x0731_04c0;
pub const IMGUI_BUTTON: u64 = 0x0731_1a70; // Button(label, &size) -> ButtonEx
pub const IMGUI_TREENODE: u64 = 0x0732_5690; // TreeNodeBehavior(id, flags, label, label_end)
pub const IMGUI_CHECKBOX: u64 = 0x0731_3050; // Checkbox(label, bool*) -> bool
pub const IMGUI_SLIDER_FLOAT: u64 = 0x0731_91f0; // SliderFloat(label, f32*, min, max, fmt, flags) -> bool
pub const IMGUI_PROGRESS_BAR: u64 = 0x0731_3ad0; // ProgressBar(fraction, ImVec2*, overlay)
pub const IMGUI_SEPARATOR: u64 = 0x0732_95d0; // Separator()
pub const IMGUI_INVISIBLE_BUTTON: u64 = 0x0731_1ae0; // InvisibleButton(id, ImVec2*, flags) -> bool
pub const IMGUI_DRAW_ADD_LINE: u64 = 0x0730_79e0; // ImDrawList::AddLine(this, p1*, p2*, col, thick)
pub const IMGUI_DRAW_ADD_RECT_FILLED: u64 = 0x0730_7c20; // AddRectFilled(this, min*, max*, col, round, flags)
pub const IMGUI_DRAW_ADD_CIRCLE_FILLED: u64 = 0x0730_8180; // AddCircleFilled(this, center*, r, col, segs)
pub const IMGUI_INPUT_TEXT: u64 = 0x0731_b270; // InputText(label, buf, buf_size, flags, cb, ud) -> bool
pub const IMGUI_BEGIN_CHILD: u64 = 0x0072_bfbe0; // BeginChild(str_id, &size, border(0/1), flags) -> bool
pub const IMGUI_END_CHILD: u64 = 0x0072_bfc40; // EndChild()
pub const IMGUI_SET_SCROLL_HERE_Y: u64 = 0x0072_cb3a0; // SetScrollHereY(ratio) - pass 1.0 for bottom
// ImGuiWindow field offsets.
pub const IMGUI_WIN_SCROLL_Y: u64 = 0x88; // window.Scroll.y
pub const IMGUI_WIN_SCROLLMAX_Y: u64 = 0x90; // window.ScrollMax.y
pub const IMGUI_WIN_CONTENT_MAX_X: u64 = 0x250; // window.ContentRegionRect.Max.x
// Inlined ImGui accessors (no exported fn): resolve via these offsets.
pub const GIMGUI_PTR: u64 = 0x0d56_a008; // *ImGuiContext global (verified via RIP-relative loads)
pub const IMGUI_CTX_CURRENT_WINDOW: u64 = 0x3ed8; // ImGuiContext.CurrentWindow
pub const IMGUI_WIN_DRAWLIST: u64 = 0x0298; // ImGuiWindow.DrawList
pub const IMGUI_WIN_CURSOR_POS: u64 = 0x0100; // ImGuiWindow.DC.CursorPos (screen)
pub const DRAWCONTROLS: u64 = 0x0739_d270; // FImGuiDemo::DrawControls (per-frame draw cb)
pub const DRAWCONTROLS_SLOT: u64 = 0x0bf4_9950; // .rdata dispatch pointer we swap

// ---------------- UObject / reflection layout ----------------
pub const ELEMENTS_PER_CHUNK: u64 = 0x1_0000;
pub const ITEM_STRIDE: u64 = 0x18; // FUObjectItem stride
pub const UOA_OBJECTS: u64 = 0x10; // FUObjectArray.Objects  (chunk pointer array)
pub const UOA_NUMELEMENTS: u64 = 0x24;
pub const UOA_NUMCHUNKS: u64 = 0x2c;
pub const UO_FLAGS: u64 = 0x08;
pub const UO_CLASS: u64 = 0x10;
pub const UO_NAME: u64 = 0x18;
pub const UO_OUTER: u64 = 0x20;
pub const UF_NEXT: u64 = 0x28; // FField.Next / linked children
pub const US_SUPER: u64 = 0x40; // UStruct.SuperStruct
pub const US_PROPERTIES: u64 = 0x50; // UStruct.ChildProperties
pub const FF_NEXT: u64 = 0x18; // FField.Next, of a property
pub const FF_NAME: u64 = 0x20; // FField.NamePrivate
pub const FF_OFFSET: u64 = 0x44; // FProperty.Offset_Internal
pub const US_CHILDREN: u64 = 0x48; // UStruct.Children
pub const UFN_PARMSSIZE: u64 = 0xb6; // UFunction.ParmsSize (u16)
pub const NP_BLOCKS: u64 = 0x10; // FNamePool.Blocks
pub const NAME_BLOCK_BITS: u32 = 16;

pub const RF_CLASS_DEFAULT_OBJECT: u32 = 0x10;
pub const RF_ARCHETYPE_OBJECT: u32 = 0x20;
pub const RF_BIT30: u32 = 0x4000_0000; // ProcessEvent refuses objects with this set

// ---------------- pawn / world-representation ----------------
pub const PAWN_PERSPECTIVE: u64 = 0x3c1; // u8: 1 = first-person, 2 = third-person
pub const PAWN_ACTIVE_REP: u64 = 0x3f8; // i32 active-rep index
pub const PAWN_REPMGR: u64 = 0x428; // rep-manager pointer
pub const REPMGR_ACTIVE_WORLD_REP: u64 = 0x188; // i32, -1 = none active
pub const REPMGR_GATE_SHOW: u64 = 0x13c; // u8 world-body show gate
pub const REPMGR_GATE_HIDEFP: u64 = 0xc0; // u8 hide-first-person-arms gate

// ---------------- BlueprintUpdateCamera parms ----------------
pub const BUC_LOCATION: u64 = 0x08; // FVector  (3 x f64)
pub const BUC_ROTATION: u64 = 0x20; // FRotator (pitch, yaw, roll f64)
pub const BUC_FOV: u64 = 0x38; // f32
pub const BUC_RETURN: u64 = 0x3c; // bool

// ---------------- camera manager (APlayerCameraManager subclass) ----------------
pub const CAMMGR_POV_FOV: u64 = 0x3b0; // ViewTarget.POV.FOV (f32) - write to force FOV
pub const CAMMGR_POV_DESIRED_FOV: u64 = 0x3b4; // ViewTarget.POV.DesiredFOV (f32)

} // verus!
