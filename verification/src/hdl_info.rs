//! The symbol table: macro definitions and modules with their ports, in
//! the order in which they were recorded.

use vstd::prelude::*;

verus! {

/// One signal that crosses a module boundary.
#[derive(Debug, Clone)]
pub struct Port {
    name: String,
    direction: String,
    port_type: String,
    width: String,
    width_expression: Option<String>,
}

/// What a [`Port`] holds.
pub struct PortView {
    pub name: Seq<char>,
    pub direction: Seq<char>,
    pub port_type: Seq<char>,
    /// The width in bits as a decimal numeral, or the text of the range
    /// where the width could not be resolved.
    pub width: Seq<char>,
    /// The text of the range that the width was resolved from.
    pub width_expression: Option<Seq<char>>,
}

/// A macro definition: a name and its replacement text, not evaluated.
#[derive(Debug, Clone)]
pub struct Define {
    name: String,
    value: String,
}

/// What a [`Define`] holds.
pub struct DefineView {
    pub name: Seq<char>,
    pub value: Seq<char>,
}

/// A module: a name and its ports in the order of their declaration.
#[derive(Debug, Clone)]
pub struct Module {
    name: String,
    ports: Vec<Port>,
}

/// What a [`Module`] holds.
pub struct ModuleView {
    pub name: Seq<char>,
    pub ports: Seq<PortView>,
}

/// The symbol table of one or more source files.
#[derive(Debug)]
pub struct HdlInfo {
    defines: Vec<Define>,
    modules: Vec<Module>,
}

/// What an [`HdlInfo`] holds.
pub struct HdlInfoView {
    pub defines: Seq<DefineView>,
    pub modules: Seq<ModuleView>,
}

/// The view of an optional string.
pub open spec fn option_view(o: Option<String>) -> Option<Seq<char>> {
    match o {
        Some(s) => Some(s@),
        None => None,
    }
}

/// The views of a sequence of ports.
pub open spec fn port_views(ports: Seq<Port>) -> Seq<PortView> {
    Seq::new(ports.len(), |i: int| ports[i]@)
}

/// The views of a sequence of macro definitions.
pub open spec fn define_views(defines: Seq<Define>) -> Seq<DefineView> {
    Seq::new(defines.len(), |i: int| defines[i]@)
}

/// The views of a sequence of modules.
pub open spec fn module_views(modules: Seq<Module>) -> Seq<ModuleView> {
    Seq::new(modules.len(), |i: int| modules[i]@)
}

/// The module `m` with the port `p` added after its other ports.
pub open spec fn with_port(m: ModuleView, p: PortView) -> ModuleView {
    ModuleView { name: m.name, ports: m.ports.push(p) }
}

/// The table `t` with the port `p` added to the module that was opened
/// last; `t` itself where no module was opened yet.
pub open spec fn with_port_in_last(t: HdlInfoView, p: PortView) -> HdlInfoView {
    if t.modules.len() == 0 {
        t
    } else {
        HdlInfoView {
            defines: t.defines,
            modules: t.modules.drop_last().push(with_port(t.modules.last(), p)),
        }
    }
}

/// The table `t` followed by the entries of `other`.
pub open spec fn merged(t: HdlInfoView, other: HdlInfoView) -> HdlInfoView {
    HdlInfoView { defines: t.defines + other.defines, modules: t.modules + other.modules }
}

/// The table without entries.
pub open spec fn empty_table() -> HdlInfoView {
    HdlInfoView { defines: Seq::empty(), modules: Seq::empty() }
}

/// Merging the table of one file and then the table of another into an
/// empty table gives the entries of both, those of the first file first,
/// each entry as it was: every module keeps its name and its ports in
/// their order.
pub proof fn lemma_merge_keeps_entries(a: HdlInfoView, b: HdlInfoView)
    ensures
        merged(merged(empty_table(), a), b).defines == a.defines + b.defines,
        merged(merged(empty_table(), a), b).modules == a.modules + b.modules,
        forall|i: int|
            0 <= i < a.modules.len() ==> #[trigger] merged(
                merged(empty_table(), a),
                b,
            ).modules[i] == a.modules[i],
        forall|i: int|
            0 <= i < b.modules.len() ==> #[trigger] merged(
                merged(empty_table(), a),
                b,
            ).modules[a.modules.len() + i] == b.modules[i],
        forall|i: int|
            0 <= i < a.defines.len() ==> #[trigger] merged(
                merged(empty_table(), a),
                b,
            ).defines[i] == a.defines[i],
        forall|i: int|
            0 <= i < b.defines.len() ==> #[trigger] merged(
                merged(empty_table(), a),
                b,
            ).defines[a.defines.len() + i] == b.defines[i],
{
    assert(Seq::<DefineView>::empty() + a.defines == a.defines);
    assert(Seq::<ModuleView>::empty() + a.modules == a.modules);
}

fn clone_option(o: &Option<String>) -> (r: Option<String>)
    ensures
        option_view(r) == option_view(*o),
{
    match o {
        Some(s) => Some(s.clone()),
        None => None,
    }
}

impl View for Port {
    type V = PortView;

    closed spec fn view(&self) -> PortView {
        PortView {
            name: self.name@,
            direction: self.direction@,
            port_type: self.port_type@,
            width: self.width@,
            width_expression: option_view(self.width_expression),
        }
    }
}

impl Port {
    /// A port with the given contents.
    pub fn new(
        name: &str,
        direction: &str,
        port_type: &str,
        width: &str,
        width_expression: &Option<String>,
    ) -> (p: Port)
        ensures
            p@ == (PortView {
                name: name@,
                direction: direction@,
                port_type: port_type@,
                width: width@,
                width_expression: option_view(*width_expression),
            }),
    {
        Port {
            name: name.to_owned(),
            direction: direction.to_owned(),
            port_type: port_type.to_owned(),
            width: width.to_owned(),
            width_expression: clone_option(width_expression),
        }
    }

    pub fn get_name(&self) -> (r: String)
        ensures
            r@ == self@.name,
    {
        self.name.clone()
    }

    pub fn get_direction(&self) -> (r: String)
        ensures
            r@ == self@.direction,
    {
        self.direction.clone()
    }

    pub fn get_port_type(&self) -> (r: String)
        ensures
            r@ == self@.port_type,
    {
        self.port_type.clone()
    }

    pub fn get_width(&self) -> (r: String)
        ensures
            r@ == self@.width,
    {
        self.width.clone()
    }

    pub fn get_width_expression(&self) -> (r: Option<String>)
        ensures
            option_view(r) == self@.width_expression,
    {
        clone_option(&self.width_expression)
    }

    /// A copy of this port.
    pub fn duplicate(&self) -> (r: Port)
        ensures
            r@ == self@,
    {
        Port {
            name: self.name.clone(),
            direction: self.direction.clone(),
            port_type: self.port_type.clone(),
            width: self.width.clone(),
            width_expression: clone_option(&self.width_expression),
        }
    }
}

impl View for Define {
    type V = DefineView;

    closed spec fn view(&self) -> DefineView {
        DefineView { name: self.name@, value: self.value@ }
    }
}

impl Define {
    /// A macro definition with the given name and replacement text.
    pub fn new(name: &str, value: &str) -> (d: Define)
        ensures
            d@ == (DefineView { name: name@, value: value@ }),
    {
        Define { name: name.to_owned(), value: value.to_owned() }
    }

    pub fn get_name(&self) -> (r: String)
        ensures
            r@ == self@.name,
    {
        self.name.clone()
    }

    pub fn get_value(&self) -> (r: String)
        ensures
            r@ == self@.value,
    {
        self.value.clone()
    }

    /// A copy of this definition.
    pub fn duplicate(&self) -> (r: Define)
        ensures
            r@ == self@,
    {
        Define { name: self.name.clone(), value: self.value.clone() }
    }
}

impl View for Module {
    type V = ModuleView;

    closed spec fn view(&self) -> ModuleView {
        ModuleView { name: self.name@, ports: port_views(self.ports@) }
    }
}

impl Module {
    /// A module of the given name without ports.
    pub fn new(name: &str) -> (m: Module)
        ensures
            m@ == (ModuleView { name: name@, ports: Seq::empty() }),
    {
        let m = Module { name: name.to_owned(), ports: Vec::new() };
        assert(port_views(m.ports@) == Seq::<PortView>::empty());
        m
    }

    pub fn get_name(&self) -> (r: String)
        ensures
            r@ == self@.name,
    {
        self.name.clone()
    }

    /// The ports in the order of their declaration.
    pub fn get_ports(&self) -> (r: &Vec<Port>)
        ensures
            port_views(r@) == self@.ports,
    {
        &self.ports
    }

    /// Adds a port after the ports that the module has.
    pub fn push_port(&mut self, port: Port)
        ensures
            final(self)@ == with_port(old(self)@, port@),
    {
        self.ports.push(port);
        assert(port_views(self.ports@) == port_views(old(self).ports@).push(port@));
    }

    /// A copy of this module.
    pub fn duplicate(&self) -> (r: Module)
        ensures
            r@ == self@,
    {
        let mut ports: Vec<Port> = Vec::new();
        let mut i: usize = 0;
        while i < self.ports.len()
            invariant
                i <= self.ports.len(),
                port_views(ports@) == port_views(self.ports@).take(i as int),
            decreases self.ports.len() - i,
        {
            let ghost before = ports@;
            ports.push(self.ports[i].duplicate());
            assert(port_views(ports@) == port_views(before).push(self.ports[i as int]@));
            assert(port_views(self.ports@).take(i + 1) == port_views(self.ports@).take(
                i as int,
            ).push(self.ports[i as int]@));
            i = i + 1;
        }
        assert(port_views(self.ports@).take(self.ports.len() as int) == port_views(self.ports@));
        Module { name: self.name.clone(), ports }
    }
}

impl View for HdlInfo {
    type V = HdlInfoView;

    closed spec fn view(&self) -> HdlInfoView {
        HdlInfoView { defines: define_views(self.defines@), modules: module_views(self.modules@) }
    }
}

impl HdlInfo {
    /// The table without entries.
    pub fn new() -> (t: HdlInfo)
        ensures
            t@ == empty_table(),
    {
        let t = HdlInfo { defines: Vec::new(), modules: Vec::new() };
        assert(define_views(t.defines@) == Seq::<DefineView>::empty());
        assert(module_views(t.modules@) == Seq::<ModuleView>::empty());
        t
    }

    /// Opens a module of the given name: the ports added next belong to it.
    pub fn add_module(&mut self, name: &str)
        ensures
            final(self)@.defines == old(self)@.defines,
            final(self)@.modules == old(self)@.modules.push(
                ModuleView { name: name@, ports: Seq::empty() },
            ),
    {
        let m = Module::new(name);
        self.modules.push(m);
        assert(module_views(self.modules@) == module_views(old(self).modules@).push(m@));
    }

    /// Records a macro definition after those that the table holds; one of
    /// the same name stays.
    pub fn add_define(&mut self, name: &str, value: &str)
        ensures
            final(self)@.modules == old(self)@.modules,
            final(self)@.defines == old(self)@.defines.push(
                DefineView { name: name@, value: value@ },
            ),
    {
        let d = Define::new(name, value);
        self.defines.push(d);
        assert(define_views(self.defines@) == define_views(old(self).defines@).push(d@));
    }

    /// Adds a port to the module that was opened last. Where no module was
    /// opened yet, the table stays as it is.
    pub fn add_ports(
        &mut self,
        name: &str,
        direction: &str,
        port_type: &str,
        width: &str,
        width_expression: &Option<String>,
    )
        ensures
            final(self)@ == with_port_in_last(
                old(self)@,
                PortView {
                    name: name@,
                    direction: direction@,
                    port_type: port_type@,
                    width: width@,
                    width_expression: option_view(*width_expression),
                },
            ),
    {
        let port = Port::new(name, direction, port_type, width, width_expression);
        match self.modules.pop() {
            Some(last) => {
                let ghost rest = self.modules@;
                let mut last = last;
                let ghost before = last@;
                last.push_port(port);
                self.modules.push(last);
                assert(module_views(rest) == module_views(old(self).modules@).drop_last());
                assert(before == module_views(old(self).modules@).last());
                assert(module_views(self.modules@) == module_views(rest).push(last@));
            },
            None => {},
        }
    }

    /// The macro definitions in the order in which they were recorded.
    pub fn get_defines(&self) -> (r: &Vec<Define>)
        ensures
            define_views(r@) == self@.defines,
    {
        &self.defines
    }

    /// The modules in the order in which they were opened.
    pub fn get_modules(&self) -> (r: &Vec<Module>)
        ensures
            module_views(r@) == self@.modules,
    {
        &self.modules
    }

    /// Appends the entries of `info` to this table: its macro definitions
    /// after the definitions, its modules after the modules. Nothing is
    /// compared: entries of the same name stay apart.
    pub fn merge_info(&mut self, info: &HdlInfo)
        ensures
            final(self)@ == merged(old(self)@, info@),
    {
        let mut i: usize = 0;
        while i < info.defines.len()
            invariant
                i <= info.defines.len(),
                self.modules@ == old(self).modules@,
                define_views(self.defines@) == define_views(old(self).defines@) + define_views(
                    info.defines@,
                ).take(i as int),
            decreases info.defines.len() - i,
        {
            let ghost before = self.defines@;
            self.defines.push(info.defines[i].duplicate());
            assert(define_views(self.defines@) == define_views(before).push(
                info.defines[i as int]@,
            ));
            assert(define_views(info.defines@).take(i + 1) == define_views(info.defines@).take(
                i as int,
            ).push(info.defines[i as int]@));
            i = i + 1;
        }
        assert(define_views(info.defines@).take(info.defines.len() as int) == define_views(
            info.defines@,
        ));
        let mut j: usize = 0;
        while j < info.modules.len()
            invariant
                j <= info.modules.len(),
                define_views(self.defines@) == define_views(old(self).defines@) + define_views(
                    info.defines@,
                ),
                module_views(self.modules@) == module_views(old(self).modules@) + module_views(
                    info.modules@,
                ).take(j as int),
            decreases info.modules.len() - j,
        {
            let ghost before = self.modules@;
            self.modules.push(info.modules[j].duplicate());
            assert(module_views(self.modules@) == module_views(before).push(
                info.modules[j as int]@,
            ));
            assert(module_views(info.modules@).take(j + 1) == module_views(info.modules@).take(
                j as int,
            ).push(info.modules[j as int]@));
            j = j + 1;
        }
        assert(module_views(info.modules@).take(info.modules.len() as int) == module_views(
            info.modules@,
        ));
    }
}

} // verus!
