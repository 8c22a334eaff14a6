//! The static table of HPACK (RFC 7541, Appendix A).
use vstd::prelude::*;
use vstd::string::StringSliceAdditionalSpecFns;

verus! {

/// Number of entries in the static table.
pub const STATIC_LEN: usize = 61;

/// Name and value of static entry `i`, for `1 <= i <= 61`.
pub closed spec fn static_text(i: int) -> (&'static str, &'static str) {
    if i < 31 {
        if i < 16 {
            if i < 8 {
                if i < 4 {
                    if i < 2 {
                        (":authority", "")
                    } else {
                        if i < 3 {
                            (":method", "GET")
                        } else {
                            (":method", "POST")
                        }
                    }
                } else {
                    if i < 6 {
                        if i < 5 {
                            (":path", "/")
                        } else {
                            (":path", "/index.html")
                        }
                    } else {
                        if i < 7 {
                            (":scheme", "http")
                        } else {
                            (":scheme", "https")
                        }
                    }
                }
            } else {
                if i < 12 {
                    if i < 10 {
                        if i < 9 {
                            (":status", "200")
                        } else {
                            (":status", "204")
                        }
                    } else {
                        if i < 11 {
                            (":status", "206")
                        } else {
                            (":status", "304")
                        }
                    }
                } else {
                    if i < 14 {
                        if i < 13 {
                            (":status", "400")
                        } else {
                            (":status", "404")
                        }
                    } else {
                        if i < 15 {
                            (":status", "500")
                        } else {
                            ("accept-charset", "")
                        }
                    }
                }
            }
        } else {
            if i < 23 {
                if i < 19 {
                    if i < 17 {
                        ("accept-encoding", "gzip, deflate")
                    } else {
                        if i < 18 {
                            ("accept-language", "")
                        } else {
                            ("accept-ranges", "")
                        }
                    }
                } else {
                    if i < 21 {
                        if i < 20 {
                            ("accept", "")
                        } else {
                            ("access-control-allow-origin", "")
                        }
                    } else {
                        if i < 22 {
                            ("age", "")
                        } else {
                            ("allow", "")
                        }
                    }
                }
            } else {
                if i < 27 {
                    if i < 25 {
                        if i < 24 {
                            ("authorization", "")
                        } else {
                            ("cache-control", "")
                        }
                    } else {
                        if i < 26 {
                            ("content-disposition", "")
                        } else {
                            ("content-encoding", "")
                        }
                    }
                } else {
                    if i < 29 {
                        if i < 28 {
                            ("content-language", "")
                        } else {
                            ("content-length", "")
                        }
                    } else {
                        if i < 30 {
                            ("content-location", "")
                        } else {
                            ("content-range", "")
                        }
                    }
                }
            }
        }
    } else {
        if i < 46 {
            if i < 38 {
                if i < 34 {
                    if i < 32 {
                        ("content-type", "")
                    } else {
                        if i < 33 {
                            ("cookie", "")
                        } else {
                            ("date", "")
                        }
                    }
                } else {
                    if i < 36 {
                        if i < 35 {
                            ("etag", "")
                        } else {
                            ("expect", "")
                        }
                    } else {
                        if i < 37 {
                            ("expires", "")
                        } else {
                            ("from", "")
                        }
                    }
                }
            } else {
                if i < 42 {
                    if i < 40 {
                        if i < 39 {
                            ("host", "")
                        } else {
                            ("if-match", "")
                        }
                    } else {
                        if i < 41 {
                            ("if-modified-since", "")
                        } else {
                            ("if-none-match", "")
                        }
                    }
                } else {
                    if i < 44 {
                        if i < 43 {
                            ("if-range", "")
                        } else {
                            ("if-unmodified-since", "")
                        }
                    } else {
                        if i < 45 {
                            ("last-modified", "")
                        } else {
                            ("link", "")
                        }
                    }
                }
            }
        } else {
            if i < 54 {
                if i < 50 {
                    if i < 48 {
                        if i < 47 {
                            ("location", "")
                        } else {
                            ("max-forwards", "")
                        }
                    } else {
                        if i < 49 {
                            ("proxy-authenticate", "")
                        } else {
                            ("proxy-authorization", "")
                        }
                    }
                } else {
                    if i < 52 {
                        if i < 51 {
                            ("range", "")
                        } else {
                            ("referer", "")
                        }
                    } else {
                        if i < 53 {
                            ("refresh", "")
                        } else {
                            ("retry-after", "")
                        }
                    }
                }
            } else {
                if i < 58 {
                    if i < 56 {
                        if i < 55 {
                            ("server", "")
                        } else {
                            ("set-cookie", "")
                        }
                    } else {
                        if i < 57 {
                            ("strict-transport-security", "")
                        } else {
                            ("transfer-encoding", "")
                        }
                    }
                } else {
                    if i < 60 {
                        if i < 59 {
                            ("user-agent", "")
                        } else {
                            ("vary", "")
                        }
                    } else {
                        if i < 61 {
                            ("via", "")
                        } else {
                            ("www-authenticate", "")
                        }
                    }
                }
            }
        }
    }
}

/// Name and value of static entry `i` as octets.
pub closed spec fn static_entry(i: int) -> (Seq<u8>, Seq<u8>) {
    (static_text(i).0.spec_bytes(), static_text(i).1.spec_bytes())
}

/// Returns the name and value of static entry `i`.
pub fn static_get(i: usize) -> (r: (&'static [u8], &'static [u8]))
    requires
        1 <= i <= STATIC_LEN,
    ensures
        r.0@ == static_entry(i as int).0,
        r.1@ == static_entry(i as int).1,
{
    let (name, value): (&'static str, &'static str) = {
        if i < 31 {
            if i < 16 {
                if i < 8 {
                    if i < 4 {
                        if i < 2 {
                            (":authority", "")
                        } else {
                            if i < 3 {
                                (":method", "GET")
                            } else {
                                (":method", "POST")
                            }
                        }
                    } else {
                        if i < 6 {
                            if i < 5 {
                                (":path", "/")
                            } else {
                                (":path", "/index.html")
                            }
                        } else {
                            if i < 7 {
                                (":scheme", "http")
                            } else {
                                (":scheme", "https")
                            }
                        }
                    }
                } else {
                    if i < 12 {
                        if i < 10 {
                            if i < 9 {
                                (":status", "200")
                            } else {
                                (":status", "204")
                            }
                        } else {
                            if i < 11 {
                                (":status", "206")
                            } else {
                                (":status", "304")
                            }
                        }
                    } else {
                        if i < 14 {
                            if i < 13 {
                                (":status", "400")
                            } else {
                                (":status", "404")
                            }
                        } else {
                            if i < 15 {
                                (":status", "500")
                            } else {
                                ("accept-charset", "")
                            }
                        }
                    }
                }
            } else {
                if i < 23 {
                    if i < 19 {
                        if i < 17 {
                            ("accept-encoding", "gzip, deflate")
                        } else {
                            if i < 18 {
                                ("accept-language", "")
                            } else {
                                ("accept-ranges", "")
                            }
                        }
                    } else {
                        if i < 21 {
                            if i < 20 {
                                ("accept", "")
                            } else {
                                ("access-control-allow-origin", "")
                            }
                        } else {
                            if i < 22 {
                                ("age", "")
                            } else {
                                ("allow", "")
                            }
                        }
                    }
                } else {
                    if i < 27 {
                        if i < 25 {
                            if i < 24 {
                                ("authorization", "")
                            } else {
                                ("cache-control", "")
                            }
                        } else {
                            if i < 26 {
                                ("content-disposition", "")
                            } else {
                                ("content-encoding", "")
                            }
                        }
                    } else {
                        if i < 29 {
                            if i < 28 {
                                ("content-language", "")
                            } else {
                                ("content-length", "")
                            }
                        } else {
                            if i < 30 {
                                ("content-location", "")
                            } else {
                                ("content-range", "")
                            }
                        }
                    }
                }
            }
        } else {
            if i < 46 {
                if i < 38 {
                    if i < 34 {
                        if i < 32 {
                            ("content-type", "")
                        } else {
                            if i < 33 {
                                ("cookie", "")
                            } else {
                                ("date", "")
                            }
                        }
                    } else {
                        if i < 36 {
                            if i < 35 {
                                ("etag", "")
                            } else {
                                ("expect", "")
                            }
                        } else {
                            if i < 37 {
                                ("expires", "")
                            } else {
                                ("from", "")
                            }
                        }
                    }
                } else {
                    if i < 42 {
                        if i < 40 {
                            if i < 39 {
                                ("host", "")
                            } else {
                                ("if-match", "")
                            }
                        } else {
                            if i < 41 {
                                ("if-modified-since", "")
                            } else {
                                ("if-none-match", "")
                            }
                        }
                    } else {
                        if i < 44 {
                            if i < 43 {
                                ("if-range", "")
                            } else {
                                ("if-unmodified-since", "")
                            }
                        } else {
                            if i < 45 {
                                ("last-modified", "")
                            } else {
                                ("link", "")
                            }
                        }
                    }
                }
            } else {
                if i < 54 {
                    if i < 50 {
                        if i < 48 {
                            if i < 47 {
                                ("location", "")
                            } else {
                                ("max-forwards", "")
                            }
                        } else {
                            if i < 49 {
                                ("proxy-authenticate", "")
                            } else {
                                ("proxy-authorization", "")
                            }
                        }
                    } else {
                        if i < 52 {
                            if i < 51 {
                                ("range", "")
                            } else {
                                ("referer", "")
                            }
                        } else {
                            if i < 53 {
                                ("refresh", "")
                            } else {
                                ("retry-after", "")
                            }
                        }
                    }
                } else {
                    if i < 58 {
                        if i < 56 {
                            if i < 55 {
                                ("server", "")
                            } else {
                                ("set-cookie", "")
                            }
                        } else {
                            if i < 57 {
                                ("strict-transport-security", "")
                            } else {
                                ("transfer-encoding", "")
                            }
                        }
                    } else {
                        if i < 60 {
                            if i < 59 {
                                ("user-agent", "")
                            } else {
                                ("vary", "")
                            }
                        } else {
                            if i < 61 {
                                ("via", "")
                            } else {
                                ("www-authenticate", "")
                            }
                        }
                    }
                }
            }
        }
    };
    assert((name, value) == static_text(i as int));
    (name.as_bytes(), value.as_bytes())
}

} // verus!
