//! A singly linked stack that counts its elements.
use vstd::prelude::*;
use crate::text::push_char;

verus! {

/// A cell of the stack: an element and the cell below it.
pub struct Node<T> {
    pub(crate) elem: T,
    pub(crate) pointer: Option<Box<Node<T>>>,
}

impl<T> Node<T> {
    /// A cell holding `elem` with nothing below it.
    pub(crate) fn new(elem: T) -> (node: Node<T>)
        ensures
            node.elem == elem,
            node.pointer is None,
    {
        Node { elem, pointer: None }
    }

    /// The elements from this cell downwards, top first.
    pub closed spec fn elems(self) -> Seq<T>
        decreases self,
    {
        match self.pointer {
            None => seq![self.elem],
            Some(below) => seq![self.elem] + below.elems(),
        }
    }
}

/// A stack together with the number of elements it holds.
pub struct Stack<T> {
    head: Option<Node<T>>,
    largo: i32,
}

impl<T> View for Stack<T> {
    type V = Seq<T>;

    /// The elements, top first.
    closed spec fn view(&self) -> Seq<T> {
        match self.head {
            None => Seq::empty(),
            Some(node) => node.elems(),
        }
    }
}

impl<T> Stack<T> {
    /// The stored count is the number of elements, for every stack.
    #[verifier::type_invariant]
    pub closed spec fn well_formed(self) -> bool {
        self.largo as int == self@.len()
    }

    /// An empty stack.
    pub fn new() -> (s: Self)
        ensures
            s@ == Seq::<T>::empty(),
    {
        Stack { head: None, largo: 0 }
    }

    /// Puts `elem` on top. The count is an `i32`, so the stack holds at
    /// most `i32::MAX` elements.
    pub fn push(&mut self, elem: T)
        requires
            old(self)@.len() < i32::MAX,
        ensures
            final(self)@ == seq![elem] + old(self)@,
    {
        let mut current = Stack::new();
        std::mem::swap(&mut current, self);
        proof {
            use_type_invariant(&current);
        }
        let Stack { head, largo } = current;
        let mut node = Node::new(elem);
        if let Some(current_head) = head {
            node.pointer = Some(Box::new(current_head));
        }
        let grown = Stack { head: Some(node), largo: largo + 1 };
        assert(grown@ =~= seq![elem] + old(self)@);
        *self = grown;
    }

    /// The top element, if any.
    pub fn peek(&self) -> (top: Option<&T>)
        ensures
            top is None <==> self@.len() == 0,
            top matches Some(t) ==> *t == self@[0],
    {
        match &self.head {
            Some(current_head) => Some(&current_head.elem),
            None => None,
        }
    }

    /// Takes the top element off, if any.
    pub fn pop(&mut self) -> (top: Option<T>)
        ensures
            old(self)@.len() == 0 ==> top is None && final(self)@ == old(self)@,
            old(self)@.len() > 0 ==> top == Some(old(self)@[0]) && final(self)@ == old(
                self,
            )@.drop_first(),
    {
        let mut current = Stack::new();
        std::mem::swap(&mut current, self);
        proof {
            use_type_invariant(&current);
        }
        let Stack { head, largo } = current;
        match head {
            Some(current_head) => {
                let rest = match current_head.pointer {
                    Some(current_pointer) => Some(*current_pointer),
                    None => None,
                };
                let shrunk = Stack { head: rest, largo: largo - 1 };
                assert(shrunk@ =~= old(self)@.drop_first());
                *self = shrunk;
                Some(current_head.elem)
            },
            None => {
                *self = Stack { head: None, largo };
                None
            },
        }
    }

    /// The number of elements on `pila`.
    pub fn cuenta(pila: &Stack<T>) -> (n: i32)
        ensures
            n == pila@.len(),
    {
        proof {
            use_type_invariant(pila);
        }
        pila.largo
    }
}

impl<T> Stack<T> {
    /// `frase` with its characters in reverse order, obtained by pushing
    /// every character on a stack and popping them all. An empty `frase`
    /// is refused (the original stops there), and the stack's `i32` count
    /// bounds the length.
    pub fn invertir_frase(frase: &str) -> (res: String)
        requires
            frase@.len() > 0,
            frase@.len() <= i32::MAX,
        ensures
            res@ == frase@.reverse(),
    {
        let mut pila_char: Stack<char> = Stack::new();
        let mut resultado = String::new();
        broadcast use vstd::string::group_string_axioms;
        for c in it: frase.chars()
            invariant
                frase@.len() <= i32::MAX,
                it.seq() == frase@,
                pila_char@ == frase@.take(it.index() as int).reverse(),
        {
            pila_char.push(c);
            assert(frase@.take(it.index() + 1) =~= frase@.take(it.index() as int).push(c));
        }
        assert(frase@.take(frase@.len() as int) =~= frase@);
        assert(resultado@ + pila_char@ =~= frase@.reverse());
        loop
            invariant_except_break
                pila_char@.len() > 0,
            invariant
                resultado@ + pila_char@ == frase@.reverse(),
            ensures
                pila_char@.len() == 0,
            decreases pila_char@.len(),
        {
            let ghost before = pila_char@;
            let char_from_pila = pila_char.pop().unwrap();
            push_char(&mut resultado, char_from_pila);
            assert(resultado@ + pila_char@ =~= frase@.reverse()) by {
                assert(before =~= seq![char_from_pila] + pila_char@);
            }
            if pila_char.head.is_none() {
                break;
            }
        }
        assert(resultado@ =~= frase@.reverse());
        resultado
    }
}


/// Popping right after a push hands back the pushed element and leaves
/// the stack as it was before the push; peeking shows that element.
pub proof fn law_pop_undoes_push<T>(s: Seq<T>, elem: T)
    ensures
        (seq![elem] + s).len() > 0,
        (seq![elem] + s)[0] == elem,
        (seq![elem] + s).drop_first() == s,
        (seq![elem] + s).len() == s.len() + 1,
{
    assert((seq![elem] + s).drop_first() =~= s);
}

/// Reversing a phrase twice gives it back, and reversing keeps its
/// length.
pub proof fn law_invertir_frase_twice(frase: Seq<char>)
    ensures
        frase.reverse().reverse() == frase,
        frase.reverse().len() == frase.len(),
{
    assert(frase.reverse().reverse() =~= frase);
}

} // verus!
