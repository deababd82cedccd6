//! The code generator: renders a module of the symbol table as the source
//! text of a black-box declaration, with its ports as the fields of a
//! bundle that is either written in place or declared on its own.

use crate::eval::string_views;
use crate::hdl_info::{module_views, port_views, HdlInfo, HdlInfoView, Module, ModuleView, Port, PortView};
use crate::text::{indent_block, indented, joined, push_char};
use vstd::prelude::*;

verus! {

/// The declaration of one field: the port's name, its direction as the
/// wrapper, and its width as the size of an unsigned vector. A width that
/// was not resolved is written as it is.
pub open spec fn port_line(p: PortView) -> Seq<char> {
    "val "@ + p.name + " = "@ + p.direction + "(UInt("@ + p.width + ".W))"@
}

/// The declarations of the fields, one for each port, in port order.
pub open spec fn port_lines(ports: Seq<PortView>) -> Seq<Seq<char>> {
    Seq::new(ports.len(), |i: int| port_line(ports[i]))
}

/// The block of fields as both layouts write it: one line for each port,
/// each moved right by eight spaces.
pub open spec fn fields_block(ports: Seq<PortView>) -> Seq<char> {
    indented(joined(port_lines(ports), seq!['\n']), 8)
}

/// The name of the bundle that the split layout declares for a module.
pub open spec fn bundle_name(name: Seq<char>) -> Seq<char> {
    name + "_Bundle"@
}

/// What a layout writes before the block of fields.
pub open spec fn layout_head(name: Seq<char>, split: bool) -> Seq<char> {
    if split {
        "import chisel3._\n\nclass "@ + bundle_name(name) + " extends Bundle {\n"@
    } else {
        "import chisel3._\n\nclass "@ + name
            + " extends BlackBox {\n    val io = IO(new Bundle {\n"@
    }
}

/// What a layout writes behind the block of fields.
pub open spec fn layout_tail(name: Seq<char>, split: bool) -> Seq<char> {
    if split {
        "\n}\n\nclass "@ + name + " extends BlackBox {\n    val io = IO(new "@ + bundle_name(name)
            + ")\n}\n"@
    } else {
        "\n    })\n}\n"@
    }
}

/// The text of a module in one of the two layouts. The inline layout is
/// one declaration with the bundle of fields written in place. The split
/// layout declares the bundle on its own, named after the module, and a
/// black box that instantiates it.
pub open spec fn chisel_text(m: ModuleView, split: bool) -> Seq<char> {
    layout_head(m.name, split) + fields_block(m.ports) + layout_tail(m.name, split)
}

/// The text of a module with the bundle written in place and not wrapped
/// as an interface.
pub open spec fn plain_text(m: ModuleView) -> Seq<char> {
    "import chisel3._\n\nclass "@ + m.name + " extends BlackBox {\n    val io = new Bundle {\n"@
        + fields_block(m.ports) + "\n    }\n}\n"@
}

/// The texts of the modules in one of the two layouts, in module order.
pub open spec fn chisel_texts(modules: Seq<ModuleView>, split: bool) -> Seq<Seq<char>> {
    Seq::new(modules.len(), |i: int| chisel_text(modules[i], split))
}

/// The two layouts write the same fields: the text of either is its head,
/// the one block of fields, and its tail, and the block holds one line
/// for each port, in port order, made of the port's name, direction and
/// width.
pub proof fn lemma_layouts_share_fields(m: ModuleView)
    ensures
        chisel_text(m, false) == layout_head(m.name, false) + fields_block(m.ports) + layout_tail(
            m.name,
            false,
        ),
        chisel_text(m, true) == layout_head(m.name, true) + fields_block(m.ports) + layout_tail(
            m.name,
            true,
        ),
        fields_block(m.ports) == indented(joined(port_lines(m.ports), seq!['\n']), 8),
        port_lines(m.ports).len() == m.ports.len(),
        forall|i: int|
            0 <= i < m.ports.len() ==> #[trigger] port_lines(m.ports)[i] == port_line(m.ports[i]),
{
}

/// The text of every module depends on what the table holds alone: two
/// tables that hold the same entries give the same texts.
pub proof fn lemma_texts_of_equal_tables(a: HdlInfoView, b: HdlInfoView, split: bool)
    requires
        a.modules =~= b.modules,
    ensures
        chisel_texts(a.modules, split) == chisel_texts(b.modules, split),
{
}

/// Renders one port as the declaration of a field.
pub fn port_to_chisel(port: &Port) -> (out: String)
    ensures
        out@ == port_line(port@),
{
    let mut out = String::new();
    out.append("val ");
    out.append(port.get_name().as_str());
    out.append(" = ");
    out.append(port.get_direction().as_str());
    out.append("(UInt(");
    out.append(port.get_width().as_str());
    out.append(".W))");
    assert(out@ =~= port_line(port@));
    out
}

fn fields_of(ports: &Vec<Port>) -> (out: String)
    ensures
        out@ == fields_block(port_views(ports@)),
{
    let ghost lines = port_lines(port_views(ports@));
    let ghost nl = seq!['\n'];
    let mut text = String::new();
    let mut k: usize = 0;
    assert(lines.take(0) == Seq::<Seq<char>>::empty());
    while k < ports.len()
        invariant
            k <= ports.len(),
            lines == port_lines(port_views(ports@)),
            nl == seq!['\n'],
            text@ == joined(lines.take(k as int), nl),
        decreases ports.len() - k,
    {
        let ghost before = text@;
        if k > 0 {
            push_char(&mut text, '\n');
        }
        let line = port_to_chisel(&ports[k]);
        text.append(line.as_str());
        proof {
            let next = lines.take(k + 1);
            assert(next.drop_last() == lines.take(k as int));
            assert(next.last() == port_line(ports[k as int]@));
            if k > 0 {
                assert(before + nl == before.push('\n'));
                assert(text@ == before + nl + next.last());
            } else {
                assert(text@ == next.last());
            }
        }
        k = k + 1;
    }
    assert(lines.take(ports.len() as int) == lines);
    indent_block(text.as_str(), 8)
}

/// Renders one module in the inline layout, or in the split layout where
/// `split_bundle` is set.
pub fn module_to_chisel(module: &Module, split_bundle: bool) -> (out: String)
    ensures
        out@ == chisel_text(module@, split_bundle),
{
    let fields = fields_of(module.get_ports());
    let name = module.get_name();
    let mut out = String::new();
    if split_bundle {
        out.append("import chisel3._\n\nclass ");
        out.append(name.as_str());
        out.append("_Bundle");
        out.append(" extends Bundle {\n");
        out.append(fields.as_str());
        out.append("\n}\n\nclass ");
        out.append(name.as_str());
        out.append(" extends BlackBox {\n    val io = IO(new ");
        out.append(name.as_str());
        out.append("_Bundle");
        out.append(")\n}\n");
    } else {
        out.append("import chisel3._\n\nclass ");
        out.append(name.as_str());
        out.append(" extends BlackBox {\n    val io = IO(new Bundle {\n");
        out.append(fields.as_str());
        out.append("\n    })\n}\n");
    }
    assert(out@ =~= chisel_text(module@, split_bundle));
    out
}

impl Port {
    /// This port as the declaration of a field.
    pub fn to_chisel(&self) -> (out: String)
        ensures
            out@ == port_line(self@),
    {
        port_to_chisel(self)
    }
}

impl Module {
    /// Moves every non-empty line of `text` right by `indent_size` spaces
    /// and joins the lines by single line feeds.
    pub fn indent_block(text: &str, indent_size: usize) -> (out: String)
        ensures
            out@ == indented(text@, indent_size as nat),
    {
        indent_block(text, indent_size)
    }

    /// This module as a black box with its bundle written in place and
    /// not wrapped as an interface.
    pub fn to_chisel(&self) -> (out: String)
        ensures
            out@ == plain_text(self@),
    {
        let fields = fields_of(self.get_ports());
        let mut out = String::new();
        out.append("import chisel3._\n\nclass ");
        out.append(self.get_name().as_str());
        out.append(" extends BlackBox {\n    val io = new Bundle {\n");
        out.append(fields.as_str());
        out.append("\n    }\n}\n");
        assert(out@ =~= plain_text(self@));
        out
    }
}

/// One generated file: its name and what it holds.
#[derive(Debug, Clone)]
pub struct Artifact {
    pub file_name: String,
    pub contents: String,
}

/// What an [`Artifact`] holds.
pub struct ArtifactView {
    pub file_name: Seq<char>,
    pub contents: Seq<char>,
}

impl View for Artifact {
    type V = ArtifactView;

    open spec fn view(&self) -> ArtifactView {
        ArtifactView { file_name: self.file_name@, contents: self.contents@ }
    }
}

/// The views of a sequence of artifacts.
pub open spec fn artifact_views(a: Seq<Artifact>) -> Seq<ArtifactView> {
    Seq::new(a.len(), |i: int| a[i]@)
}

/// The file of a module: named after the module, with the text of the
/// module in the chosen layout.
pub open spec fn artifact_of(m: ModuleView, split: bool) -> ArtifactView {
    ArtifactView { file_name: m.name + ".scala"@, contents: chisel_text(m, split) }
}

/// The files of the modules, in module order.
pub open spec fn artifacts_of(modules: Seq<ModuleView>, split: bool) -> Seq<ArtifactView> {
    Seq::new(modules.len(), |i: int| artifact_of(modules[i], split))
}

/// The code generator with its choice of layout.
#[derive(Debug, Clone, Copy)]
pub struct ChiselConverter {
    split_bundle: bool,
}

impl ChiselConverter {
    /// Whether this generator writes the split layout.
    pub closed spec fn splits(&self) -> bool {
        self.split_bundle
    }

    /// A generator of the inline layout.
    pub fn builder() -> (c: ChiselConverter)
        ensures
            !c.splits(),
    {
        ChiselConverter { split_bundle: false }
    }

    /// This generator, set to the split layout.
    pub fn split_bundle(self) -> (c: ChiselConverter)
        ensures
            c.splits(),
    {
        ChiselConverter { split_bundle: true }
    }

    /// Renders every module of the table, in module order.
    pub fn emit_chisel_string(&self, hdl_info: &HdlInfo) -> (out: Vec<String>)
        ensures
            string_views(out@) == chisel_texts(hdl_info@.modules, self.splits()),
    {
        let modules = hdl_info.get_modules();
        let ghost all = chisel_texts(hdl_info@.modules, self.splits());
        let mut out: Vec<String> = Vec::new();
        let mut i: usize = 0;
        assert(string_views(out@) =~= all.take(0));
        while i < modules.len()
            invariant
                i <= modules.len(),
                module_views(modules@) == hdl_info@.modules,
                all == chisel_texts(hdl_info@.modules, self.splits()),
                string_views(out@) == all.take(i as int),
            decreases modules.len() - i,
        {
            let ghost before = out@;
            let text = module_to_chisel(&modules[i], self.split_bundle);
            assert(module_views(modules@)[i as int] == modules[i as int]@);
            out.push(text);
            assert(string_views(out@) =~= string_views(before).push(text@));
            assert(all.take(i + 1) =~= all.take(i as int).push(text@));
            i = i + 1;
        }
        assert(all.take(modules.len() as int) == all);
        out
    }

    /// Renders every module of the table as a file to be written: the
    /// file is named after the module, with the suffix `.scala`.
    pub fn emit_chisel(&self, hdl_info: &HdlInfo) -> (out: Vec<Artifact>)
        ensures
            artifact_views(out@) == artifacts_of(hdl_info@.modules, self.splits()),
    {
        let modules = hdl_info.get_modules();
        let ghost all = artifacts_of(hdl_info@.modules, self.splits());
        let mut out: Vec<Artifact> = Vec::new();
        let mut i: usize = 0;
        assert(artifact_views(out@) =~= all.take(0));
        while i < modules.len()
            invariant
                i <= modules.len(),
                module_views(modules@) == hdl_info@.modules,
                all == artifacts_of(hdl_info@.modules, self.splits()),
                artifact_views(out@) == all.take(i as int),
            decreases modules.len() - i,
        {
            let ghost before = out@;
            let contents = module_to_chisel(&modules[i], self.split_bundle);
            let mut file_name = modules[i].get_name();
            file_name.append(".scala");
            assert(module_views(modules@)[i as int] == modules[i as int]@);
            let artifact = Artifact { file_name, contents };
            out.push(artifact);
            assert(artifact_views(out@) =~= artifact_views(before).push(artifact@));
            assert(all.take(i + 1) =~= all.take(i as int).push(artifact@));
            i = i + 1;
        }
        assert(all.take(modules.len() as int) == all);
        out
    }
}

impl Default for ChiselConverter {
    fn default() -> (c: ChiselConverter)
        ensures
            !c.splits(),
    {
        ChiselConverter { split_bundle: false }
    }
}

} // verus!
