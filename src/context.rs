use vstd::prelude::*;
use vstd::string::StringExecFns;

verus! {

/// One scope frame: the module it belongs to and, in a function scope, the function.
#[derive(Debug, Clone, PartialEq, Eq)]
pub struct ParserState {
    current_module: String,
    current_function: Option<String>,
}

/// The mathematical value of a scope frame.
pub struct FrameView {
    pub module: Seq<char>,
    pub function: Option<Seq<char>>,
}

impl View for ParserState {
    type V = FrameView;

    closed spec fn view(&self) -> FrameView {
        FrameView {
            module: self.current_module@,
            function: match self.current_function {
                Some(f) => Some(f@),
                None => None,
            },
        }
    }
}

/// The stack of module and function scopes that a parse is inside of.
#[derive(Debug, Clone, PartialEq, Eq, Default)]
pub struct ParserContext {
    stack: Vec<ParserState>,
}

impl View for ParserContext {
    type V = Seq<FrameView>;

    closed spec fn view(&self) -> Seq<FrameView> {
        self.stack@.map_values(|s: ParserState| s@)
    }
}

/// The module name of the frame below the last one of `frames`, or the empty
/// name when there is none.
pub open spec fn previous_module(frames: Seq<FrameView>) -> Seq<char> {
    if frames.len() == 0 {
        seq![]
    } else {
        frames.last().module
    }
}

/// The module names of the frames joined by `.`, where a frame is skipped when
/// its module name equals that of the frame below it (a function frame repeats
/// its module's name). No dot is put after an empty prefix.
pub open spec fn qualified_module_name(frames: Seq<FrameView>) -> Seq<char>
    decreases frames.len(),
{
    if frames.len() == 0 {
        seq![]
    } else {
        let init = frames.drop_last();
        let acc = qualified_module_name(init);
        let m = frames.last().module;
        if m == previous_module(init) {
            acc
        } else if acc.len() == 0 {
            m
        } else {
            acc + seq!['.'] + m
        }
    }
}

/// The qualified name of the function in scope: the qualified module name, a
/// dot and the function's name; `None` when the top frame is no function frame.
pub open spec fn qualified_function_name(frames: Seq<FrameView>) -> Option<Seq<char>> {
    if frames.len() > 0 && frames.last().function is Some {
        Some(qualified_module_name(frames) + seq!['.'] + frames.last().function->Some_0)
    } else {
        None
    }
}

impl ParserContext {
    pub fn new() -> (r: Self)
        ensures
            r@ == Seq::<FrameView>::empty(),
    {
        let r = ParserContext { stack: Vec::new() };
        assert(r@ =~= Seq::<FrameView>::empty());
        r
    }

    /// Enters the scope of module `module_name`.
    pub fn enter_module(&mut self, module_name: String)
        ensures
            final(self)@ == old(self)@.push(FrameView { module: module_name@, function: None }),
    {
        let frame = ParserState { current_module: module_name, current_function: None };
        self.stack.push(frame);
        assert(self@ =~= old(self)@.push(FrameView { module: module_name@, function: None }));
    }

    /// Leaves the innermost scope.
    pub fn exit_module(&mut self)
        requires
            old(self)@.len() > 0,
        ensures
            final(self)@ == old(self)@.drop_last(),
    {
        self.stack.pop();
        assert(self@ =~= old(self)@.drop_last());
    }

    /// Enters the scope of function `function_name` inside the current module.
    pub fn enter_function(&mut self, function_name: String)
        requires
            old(self)@.len() > 0,
        ensures
            final(self)@ == old(self)@.push(
                FrameView { module: old(self)@.last().module, function: Some(function_name@) },
            ),
    {
        let n = self.stack.len();
        let module = self.stack[n - 1].current_module.clone();
        let frame = ParserState { current_module: module, current_function: Some(function_name) };
        self.stack.push(frame);
        assert(self@ =~= old(self)@.push(
            FrameView { module: old(self)@.last().module, function: Some(function_name@) },
        ));
    }

    /// Leaves the innermost scope.
    pub fn exit_function(&mut self)
        requires
            old(self)@.len() > 0,
        ensures
            final(self)@ == old(self)@.drop_last(),
    {
        self.stack.pop();
        assert(self@ =~= old(self)@.drop_last());
    }

    /// The dotted name of the current module.
    pub fn get_fully_qualified_module_name(&self) -> (r: String)
        ensures
            r@ == qualified_module_name(self@),
    {
        let mut module_name = String::new();
        let mut previous_module_name = String::new();
        let mut i: usize = 0;
        proof {
            reveal_strlit(".");
        }
        while i < self.stack.len()
            invariant
                0 <= i <= self.stack.len(),
                self@.len() == self.stack@.len(),
                module_name@ == qualified_module_name(self@.take(i as int)),
                previous_module_name@ == previous_module(self@.take(i as int)),
            decreases self.stack.len() - i,
        {
            let ghost frames = self@.take(i as int + 1);
            assert(frames.drop_last() =~= self@.take(i as int));
            assert(frames.last() == self@[i as int]);
            let state = &self.stack[i];
            assert(state@ == self@[i as int]);
            if !(state.current_module == previous_module_name) {
                let ghost acc = module_name@;
                if !module_name.as_str().is_empty() {
                    proof {
                        reveal_strlit(".");
                    }
                    module_name.append(".");
                    assert(module_name@ =~= acc + seq!['.']);
                }
                module_name.append(state.current_module.as_str());
                previous_module_name = state.current_module.clone();
            }
            i += 1;
        }
        assert(self@.take(self@.len() as int) =~= self@);
        module_name
    }

    /// The dotted name of the function in scope, if the innermost scope is a function.
    pub fn get_fully_qualified_function_name(&self) -> (r: Option<String>)
        ensures
            match r {
                Some(s) => qualified_function_name(self@) == Some(s@),
                None => qualified_function_name(self@) is None,
            },
    {
        let n = self.stack.len();
        if n == 0 {
            return None;
        }
        assert(self.stack[n - 1]@ == self@.last());
        match &self.stack[n - 1].current_function {
            Some(f) => {
                let mut name = self.get_fully_qualified_module_name();
                proof {
                    reveal_strlit(".");
                }
                let ghost acc = name@;
                name.append(".");
                name.append(f.as_str());
                assert(name@ =~= acc + seq!['.'] + f@);
                Some(name)
            },
            None => None,
        }
    }
}

} // verus!
